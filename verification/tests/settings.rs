use radiance_cascades::config::ConfigError;
use radiance_cascades::input::{drag_after, movement_for_key, Button, MoveKey, Movement};
use radiance_cascades::pipeline::PipelineConfig;
use radiance_cascades::window::{StartBuilder, DEFAULT_GL_VERSION, DEFAULT_WINDOW_SIDE};

fn config() -> PipelineConfig {
    PipelineConfig {
        screen_width: 1280,
        screen_height: 720,
        cascade_count: 6,
        probe_spacing: 4,
        probe_texels: 4,
        voxel_width: 256,
        voxel_height: 256,
        voxel_depth: 256,
        hi_z_max_level: 10,
    }
}

#[test]
fn defaults_apply_where_nothing_was_chosen() {
    let start = StartBuilder::new(String::from("prototype"));
    assert_eq!(start.title(), "prototype");
    assert_eq!(start.resolved_size(), (800, 800));
    assert_eq!(start.resolved_gl_version(), (3, 2));
    assert_eq!(start.ini_filename(), None);
    assert_eq!(DEFAULT_WINDOW_SIDE, 800);
    assert_eq!(DEFAULT_GL_VERSION, (3, 2));
}

#[test]
fn choices_are_kept() {
    let start = StartBuilder::new(String::from("Radiance cascades 3D prototype"))
        .gl_version(4, 5)
        .window_size(1280, 720)
        .imgui_ini_filename(String::from("layout.ini"));
    assert_eq!(start.title(), "Radiance cascades 3D prototype");
    assert_eq!(start.resolved_size(), (1280, 720));
    assert_eq!(start.resolved_gl_version(), (4, 5));
    assert_eq!(start.ini_filename().map(|s| s.as_str()), Some("layout.ini"));
    let again = start.window_size(1024, 1024);
    assert_eq!(again.resolved_size(), (1024, 1024));
    assert_eq!(again.resolved_gl_version(), (4, 5));
}

#[test]
fn a_valid_configuration_is_set_up() {
    let pipeline = config().validate().unwrap();
    assert_eq!(pipeline.geometry.cascade_count(), 6);
    assert_eq!(pipeline.geometry.c0_resolution(), (1280, 720));
    assert_eq!(pipeline.voxel_count, 16_777_216);
    assert_eq!(pipeline.depth_passes.len(), 10);
    assert!(pipeline.geometry.has_level(5));
    assert!(!pipeline.geometry.has_level(6));
}

#[test]
fn a_faulty_configuration_is_refused() {
    let refused = |c: PipelineConfig| c.validate().err();
    assert_eq!(refused(PipelineConfig { cascade_count: 0, ..config() }), Some(ConfigError::NoCascades));
    assert_eq!(refused(PipelineConfig { screen_width: 0, ..config() }), Some(ConfigError::EmptyGrid));
    assert_eq!(refused(PipelineConfig { screen_height: 0, ..config() }), Some(ConfigError::EmptyGrid));
    assert_eq!(refused(PipelineConfig { screen_width: 0x8000_0000, ..config() }), Some(ConfigError::TooLarge));
    assert_eq!(refused(PipelineConfig { probe_spacing: 0, ..config() }), Some(ConfigError::ZeroProbeSpacing));
    assert_eq!(refused(PipelineConfig { probe_texels: 0, ..config() }), Some(ConfigError::ZeroProbeSpacing));
    assert_eq!(refused(PipelineConfig { cascade_count: 12, ..config() }), Some(ConfigError::EmptyGrid));
    assert_eq!(refused(PipelineConfig { voxel_depth: 0, ..config() }), Some(ConfigError::EmptyVoxelGrid));
    assert_eq!(refused(PipelineConfig { voxel_width: 0x10000, ..config() }), Some(ConfigError::TooLarge));
    // The screen is looked at first, the voxel grid last.
    assert_eq!(
        refused(PipelineConfig { screen_width: 0, cascade_count: 0, voxel_depth: 0, ..config() }),
        Some(ConfigError::EmptyGrid)
    );
    assert_eq!(
        refused(PipelineConfig { cascade_count: 0, voxel_depth: 0, ..config() }),
        Some(ConfigError::NoCascades)
    );
}

#[test]
fn keys_move_the_camera() {
    assert_eq!(movement_for_key(MoveKey::W, false), Movement::Forward);
    assert_eq!(movement_for_key(MoveKey::S, false), Movement::Backward);
    assert_eq!(movement_for_key(MoveKey::A, true), Movement::Left);
    assert_eq!(movement_for_key(MoveKey::D, false), Movement::Right);
    assert_eq!(movement_for_key(MoveKey::Space, false), Movement::Up);
    assert_eq!(movement_for_key(MoveKey::Space, true), Movement::Down);
}

#[test]
fn the_right_button_drags() {
    assert!(drag_after(false, Button::Right, true));
    assert!(!drag_after(true, Button::Right, false));
    assert!(drag_after(true, Button::Left, false));
    assert!(!drag_after(false, Button::Left, true));
    assert!(!drag_after(false, Button::Middle, true));
    assert!(drag_after(true, Button::Other, true));
}
