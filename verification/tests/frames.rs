use radiance_cascades::frame::{
    flip_rows, frame_stages, CascadeDebugMode, DebugMode, FrameStage, SampleWindow,
    VisualizationMode,
};

const COMMON: [FrameStage; 4] = [
    FrameStage::DrawScene,
    FrameStage::BuildDepthPyramid,
    FrameStage::ClearVoxels,
    FrameStage::Voxelize,
];

fn closing(debug: bool, mode: DebugMode, cascades: CascadeDebugMode, voxels: VisualizationMode) -> Vec<FrameStage> {
    let stages = frame_stages(debug, mode, cascades, voxels);
    assert_eq!(stages[..4], COMMON);
    stages[4..].to_vec()
}

#[test]
fn a_normal_frame_computes_and_integrates() {
    for mode in DebugMode::variants() {
        assert_eq!(
            closing(false, mode, CascadeDebugMode::Upscale, VisualizationMode::Traced),
            vec![FrameStage::ComputeCascades, FrameStage::Integrate]
        );
    }
}

#[test]
fn a_debug_frame_shows_what_was_chosen() {
    let c = CascadeDebugMode::Cascades;
    let u = CascadeDebugMode::Upscale;
    let i = VisualizationMode::Instanced;
    let t = VisualizationMode::Traced;
    assert_eq!(
        closing(true, DebugMode::RadianceCascades, c, i),
        vec![FrameStage::ComputeCascades, FrameStage::ShowCascade]
    );
    assert_eq!(closing(true, DebugMode::RadianceCascades, u, i), vec![FrameStage::ShowUpscaled]);
    assert_eq!(closing(true, DebugMode::RayMarching, c, i), vec![FrameStage::ShowRayMarch]);
    assert_eq!(closing(true, DebugMode::DepthBuffer, c, i), vec![FrameStage::ShowDepth]);
    assert_eq!(closing(true, DebugMode::Scene, c, i), vec![FrameStage::ShowScene]);
    assert_eq!(closing(true, DebugMode::Voxel, c, i), vec![FrameStage::ShowVoxelsInstanced]);
    assert_eq!(closing(true, DebugMode::Voxel, c, t), vec![FrameStage::ShowVoxelsTraced]);
}

#[test]
fn modes_have_labels() {
    let labels: Vec<&str> = DebugMode::variants().iter().map(|m| m.label()).collect();
    assert_eq!(labels, vec!["RadianceCascades", "RayMarching", "DepthBuffer", "Scene", "Voxel"]);
    let labels: Vec<&str> = CascadeDebugMode::variants().iter().map(|m| m.label()).collect();
    assert_eq!(labels, vec!["Cascades", "Upscale"]);
    let labels: Vec<&str> = VisualizationMode::variants().iter().map(|m| m.label()).collect();
    assert_eq!(labels, vec!["Instanced", "Traced"]);
}

#[test]
fn the_window_keeps_the_newest_samples() {
    let mut window: SampleWindow<f32> = SampleWindow::new(3);
    assert_eq!(window.len(), 0);
    assert_eq!(window.capacity(), 3);
    window.push(1.0);
    window.push(2.0);
    assert_eq!(window.samples().iter().copied().collect::<Vec<f32>>(), vec![1.0, 2.0]);
    window.push(3.0);
    window.push(4.0);
    window.push(5.0);
    assert_eq!(window.len(), 3);
    assert_eq!(window.capacity(), 3);
    assert_eq!(window.samples().iter().copied().collect::<Vec<f32>>(), vec![3.0, 4.0, 5.0]);
}

#[test]
fn a_window_of_a_hundred_frames() {
    let mut window: SampleWindow<u32> = SampleWindow::new(100);
    for i in 0..250 {
        window.push(i);
    }
    assert_eq!(window.len(), 100);
    let kept: Vec<u32> = window.samples().iter().copied().collect();
    assert_eq!(kept, (150..250).collect::<Vec<u32>>());
}

#[test]
fn a_window_without_room_keeps_nothing() {
    let mut window: SampleWindow<u8> = SampleWindow::new(0);
    window.push(7);
    assert_eq!(window.len(), 0);
}

#[test]
fn rows_are_flipped() {
    let image = vec![1, 2, 3, 4, 5, 6, 7, 8, 9, 10, 11, 12];
    assert_eq!(flip_rows(&image, 4), vec![9, 10, 11, 12, 5, 6, 7, 8, 1, 2, 3, 4]);
    assert_eq!(flip_rows(&image, 12), image);
    assert_eq!(flip_rows(&image, 100), image);
    assert_eq!(flip_rows(&image, 1), vec![12, 11, 10, 9, 8, 7, 6, 5, 4, 3, 2, 1]);
    assert_eq!(flip_rows(&image, 6), vec![7, 8, 9, 10, 11, 12, 1, 2, 3, 4, 5, 6]);
    assert_eq!(flip_rows(&vec![], 4), Vec::<u8>::new());
}

#[test]
fn a_short_last_row_comes_first() {
    let image = vec![1, 2, 3, 4, 5, 6, 7];
    assert_eq!(flip_rows(&image, 3), vec![7, 4, 5, 6, 1, 2, 3]);
    assert_eq!(flip_rows(&flip_rows(&vec![1, 2, 3, 4, 5, 6], 2), 2), vec![1, 2, 3, 4, 5, 6]);
}
