use vstd::prelude::*;
use std::collections::VecDeque;

verus! {

/// What the 3D renderer shows in debug mode.
#[derive(Debug, Clone, Copy, PartialEq, Eq, Structural)]
pub enum DebugMode {
    RadianceCascades,
    RayMarching,
    DepthBuffer,
    Scene,
    Voxel,
}

/// What the cascade stage shows in debug mode.
#[derive(Debug, Clone, Copy, PartialEq, Eq, Structural)]
pub enum CascadeDebugMode {
    Cascades,
    Upscale,
}

/// How the voxel grid is shown.
#[derive(Debug, Clone, Copy, PartialEq, Eq, Structural)]
pub enum VisualizationMode {
    Instanced,
    Traced,
}

impl DebugMode {
    /// The name of the mode, as shown in a selection list.
    pub fn label(self) -> (s: &'static str)
        ensures
            s@ == self.label_text(),
    {
        match self {
            DebugMode::RadianceCascades => "RadianceCascades",
            DebugMode::RayMarching => "RayMarching",
            DebugMode::DepthBuffer => "DepthBuffer",
            DebugMode::Scene => "Scene",
            DebugMode::Voxel => "Voxel",
        }
    }

    /// The text of `label`.
    pub open spec fn label_text(self) -> Seq<char> {
        match self {
            DebugMode::RadianceCascades => "RadianceCascades"@,
            DebugMode::RayMarching => "RayMarching"@,
            DebugMode::DepthBuffer => "DepthBuffer"@,
            DebugMode::Scene => "Scene"@,
            DebugMode::Voxel => "Voxel"@,
        }
    }

    /// Every mode, in the order of declaration.
    pub fn variants() -> (all: [DebugMode; 5])
        ensures
            all@ == seq![
                DebugMode::RadianceCascades,
                DebugMode::RayMarching,
                DebugMode::DepthBuffer,
                DebugMode::Scene,
                DebugMode::Voxel,
            ],
    {
        let all = [
            DebugMode::RadianceCascades,
            DebugMode::RayMarching,
            DebugMode::DepthBuffer,
            DebugMode::Scene,
            DebugMode::Voxel,
        ];
        assert(all@ =~= seq![
            DebugMode::RadianceCascades,
            DebugMode::RayMarching,
            DebugMode::DepthBuffer,
            DebugMode::Scene,
            DebugMode::Voxel,
        ]);
        all
    }
}

impl CascadeDebugMode {
    /// The name of the mode, as shown in a selection list.
    pub fn label(self) -> (s: &'static str)
        ensures
            s@ == self.label_text(),
    {
        match self {
            CascadeDebugMode::Cascades => "Cascades",
            CascadeDebugMode::Upscale => "Upscale",
        }
    }

    /// The text of `label`.
    pub open spec fn label_text(self) -> Seq<char> {
        match self {
            CascadeDebugMode::Cascades => "Cascades"@,
            CascadeDebugMode::Upscale => "Upscale"@,
        }
    }

    /// Every mode, in the order of declaration.
    pub fn variants() -> (all: [CascadeDebugMode; 2])
        ensures
            all@ == seq![CascadeDebugMode::Cascades, CascadeDebugMode::Upscale],
    {
        let all = [CascadeDebugMode::Cascades, CascadeDebugMode::Upscale];
        assert(all@ =~= seq![CascadeDebugMode::Cascades, CascadeDebugMode::Upscale]);
        all
    }
}

impl VisualizationMode {
    /// The name of the mode, as shown in a selection list.
    pub fn label(self) -> (s: &'static str)
        ensures
            s@ == self.label_text(),
    {
        match self {
            VisualizationMode::Instanced => "Instanced",
            VisualizationMode::Traced => "Traced",
        }
    }

    /// The text of `label`.
    pub open spec fn label_text(self) -> Seq<char> {
        match self {
            VisualizationMode::Instanced => "Instanced"@,
            VisualizationMode::Traced => "Traced"@,
        }
    }

    /// Every mode, in the order of declaration.
    pub fn variants() -> (all: [VisualizationMode; 2])
        ensures
            all@ == seq![VisualizationMode::Instanced, VisualizationMode::Traced],
    {
        let all = [VisualizationMode::Instanced, VisualizationMode::Traced];
        assert(all@ =~= seq![VisualizationMode::Instanced, VisualizationMode::Traced]);
        all
    }
}

/// A stage of a frame of the 3D renderer. Each stage is a full barrier:
/// its outputs are complete before the next stage reads them.
#[derive(Debug, Clone, Copy, PartialEq, Eq, Structural)]
pub enum FrameStage {
    /// Rasterize the scene into albedo, emission, normal and depth.
    DrawScene,
    /// Build the depth pyramid from the depth buffer.
    BuildDepthPyramid,
    /// Clear the voxel grid.
    ClearVoxels,
    /// Write the scene's objects into the voxel grid.
    Voxelize,
    /// Compute the cascades, coarsest first.
    ComputeCascades,
    /// Combine the finest cascade with the surface data.
    Integrate,
    /// Show one cascade as it is.
    ShowCascade,
    /// Show the scene upscaled with depth and normals.
    ShowUpscaled,
    /// Show the screen-space ray marcher.
    ShowRayMarch,
    /// Show the depth pyramid's attachment.
    ShowDepth,
    /// Show the albedo of the scene.
    ShowScene,
    /// Show the voxel grid as one cube per voxel.
    ShowVoxelsInstanced,
    /// Show the voxel grid by tracing rays through it.
    ShowVoxelsTraced,
}

/// The stages that every frame begins with.
pub open spec fn common_stages() -> Seq<FrameStage> {
    seq![
        FrameStage::DrawScene,
        FrameStage::BuildDepthPyramid,
        FrameStage::ClearVoxels,
        FrameStage::Voxelize,
    ]
}

/// The stages that end a frame.
pub open spec fn closing_stages(
    debug: bool,
    mode: DebugMode,
    cascade_mode: CascadeDebugMode,
    voxel_mode: VisualizationMode,
) -> Seq<FrameStage> {
    if !debug {
        seq![FrameStage::ComputeCascades, FrameStage::Integrate]
    } else {
        match mode {
            DebugMode::RadianceCascades => match cascade_mode {
                CascadeDebugMode::Cascades => seq![FrameStage::ComputeCascades, FrameStage::ShowCascade],
                CascadeDebugMode::Upscale => seq![FrameStage::ShowUpscaled],
            },
            DebugMode::RayMarching => seq![FrameStage::ShowRayMarch],
            DebugMode::DepthBuffer => seq![FrameStage::ShowDepth],
            DebugMode::Scene => seq![FrameStage::ShowScene],
            DebugMode::Voxel => match voxel_mode {
                VisualizationMode::Instanced => seq![FrameStage::ShowVoxelsInstanced],
                VisualizationMode::Traced => seq![FrameStage::ShowVoxelsTraced],
            },
        }
    }
}

/// The stages of one frame, in the order in which they run.
pub open spec fn stage_list(
    debug: bool,
    mode: DebugMode,
    cascade_mode: CascadeDebugMode,
    voxel_mode: VisualizationMode,
) -> Seq<FrameStage> {
    common_stages() + closing_stages(debug, mode, cascade_mode, voxel_mode)
}

/// The stages of one frame, in the order in which they run.
pub fn frame_stages(
    debug: bool,
    mode: DebugMode,
    cascade_mode: CascadeDebugMode,
    voxel_mode: VisualizationMode,
) -> (stages: Vec<FrameStage>)
    ensures
        stages@ == stage_list(debug, mode, cascade_mode, voxel_mode),
{
    let mut stages: Vec<FrameStage> = Vec::new();
    stages.push(FrameStage::DrawScene);
    stages.push(FrameStage::BuildDepthPyramid);
    stages.push(FrameStage::ClearVoxels);
    stages.push(FrameStage::Voxelize);
    if !debug {
        stages.push(FrameStage::ComputeCascades);
        stages.push(FrameStage::Integrate);
    } else {
        match mode {
            DebugMode::RadianceCascades => match cascade_mode {
                CascadeDebugMode::Cascades => {
                    stages.push(FrameStage::ComputeCascades);
                    stages.push(FrameStage::ShowCascade);
                },
                CascadeDebugMode::Upscale => {
                    stages.push(FrameStage::ShowUpscaled);
                },
            },
            DebugMode::RayMarching => {
                stages.push(FrameStage::ShowRayMarch);
            },
            DebugMode::DepthBuffer => {
                stages.push(FrameStage::ShowDepth);
            },
            DebugMode::Scene => {
                stages.push(FrameStage::ShowScene);
            },
            DebugMode::Voxel => match voxel_mode {
                VisualizationMode::Instanced => {
                    stages.push(FrameStage::ShowVoxelsInstanced);
                },
                VisualizationMode::Traced => {
                    stages.push(FrameStage::ShowVoxelsTraced);
                },
            },
        }
    }
    assert(stages@ =~= stage_list(debug, mode, cascade_mode, voxel_mode));
    stages
}

/// Whether stage `stage` reads what stage `source` writes.
pub open spec fn reads_from(stage: FrameStage, source: FrameStage) -> bool {
    match stage {
        FrameStage::BuildDepthPyramid => source == FrameStage::DrawScene,
        FrameStage::Voxelize => source == FrameStage::ClearVoxels,
        FrameStage::ComputeCascades => source == FrameStage::DrawScene || source
            == FrameStage::BuildDepthPyramid || source == FrameStage::Voxelize,
        FrameStage::Integrate => source == FrameStage::ComputeCascades || source
            == FrameStage::DrawScene || source == FrameStage::BuildDepthPyramid,
        FrameStage::ShowCascade => source == FrameStage::ComputeCascades,
        FrameStage::ShowUpscaled => source == FrameStage::DrawScene,
        FrameStage::ShowRayMarch => source == FrameStage::DrawScene || source
            == FrameStage::BuildDepthPyramid,
        FrameStage::ShowDepth => source == FrameStage::BuildDepthPyramid,
        FrameStage::ShowScene => source == FrameStage::DrawScene,
        FrameStage::ShowVoxelsInstanced => source == FrameStage::Voxelize,
        FrameStage::ShowVoxelsTraced => source == FrameStage::Voxelize,
        _ => false,
    }
}

/// Data flows strictly downstream: whatever a stage of a frame reads was
/// written by a stage that ran earlier in the same frame.
pub proof fn lemma_stages_read_what_is_written(
    debug: bool,
    mode: DebugMode,
    cascade_mode: CascadeDebugMode,
    voxel_mode: VisualizationMode,
    i: int,
    source: FrameStage,
)
    requires
        0 <= i < stage_list(debug, mode, cascade_mode, voxel_mode).len(),
        reads_from(stage_list(debug, mode, cascade_mode, voxel_mode)[i], source),
    ensures
        exists|j: int| 0 <= j < i && stage_list(debug, mode, cascade_mode, voxel_mode)[j] == source,
{
    let stages = stage_list(debug, mode, cascade_mode, voxel_mode);
    assert(stages[0] == FrameStage::DrawScene);
    assert(stages[1] == FrameStage::BuildDepthPyramid);
    assert(stages[2] == FrameStage::ClearVoxels);
    assert(stages[3] == FrameStage::Voxelize);
    if i >= 5 {
        assert(stages[4] == FrameStage::ComputeCascades);
    }
}

/// A normal frame ends with the cascade stage followed by the integration
/// stage: all cascades of the frame are complete before they are
/// integrated, there is one integration, and nothing follows it.
pub proof fn lemma_integration_closes_the_frame(
    mode: DebugMode,
    cascade_mode: CascadeDebugMode,
    voxel_mode: VisualizationMode,
)
    ensures
        stage_list(false, mode, cascade_mode, voxel_mode) == common_stages() + seq![
            FrameStage::ComputeCascades,
            FrameStage::Integrate,
        ],
        stage_list(false, mode, cascade_mode, voxel_mode).len() == 6,
        forall|i: int|
            0 <= i < 6 ==> (stage_list(false, mode, cascade_mode, voxel_mode)[i]
                == FrameStage::Integrate <==> i == 5),
        forall|i: int|
            0 <= i < 6 ==> (stage_list(false, mode, cascade_mode, voxel_mode)[i]
                == FrameStage::ComputeCascades <==> i == 4),
{
    let stages = stage_list(false, mode, cascade_mode, voxel_mode);
    assert(stages[0] == FrameStage::DrawScene);
    assert(stages[1] == FrameStage::BuildDepthPyramid);
    assert(stages[2] == FrameStage::ClearVoxels);
    assert(stages[3] == FrameStage::Voxelize);
    assert(stages[4] == FrameStage::ComputeCascades);
    assert(stages[5] == FrameStage::Integrate);
}

/// The newest `capacity` items of `items`, oldest first.
pub open spec fn newest_of<T>(items: Seq<T>, capacity: nat) -> Seq<T> {
    if items.len() <= capacity {
        items
    } else {
        items.subrange(items.len() - capacity, items.len() as int)
    }
}

/// A window of samples as a mathematical value.
pub struct WindowView<T> {
    /// The samples of the window, oldest first.
    pub samples: Seq<T>,
    /// The number of samples that the window keeps.
    pub capacity: nat,
}

/// A window over the most recent samples of a measurement, such as the
/// durations of the last frames.
pub struct SampleWindow<T> {
    capacity: usize,
    samples: VecDeque<T>,
}

impl<T> View for SampleWindow<T> {
    type V = WindowView<T>;

    closed spec fn view(&self) -> WindowView<T> {
        WindowView { samples: self.samples@, capacity: self.capacity as nat }
    }
}

impl<T> SampleWindow<T> {
    /// An empty window that keeps up to `capacity` samples.
    pub fn new(capacity: usize) -> (w: SampleWindow<T>)
        ensures
            w@ == (WindowView { samples: Seq::<T>::empty(), capacity: capacity as nat }),
    {
        SampleWindow { capacity, samples: VecDeque::new() }
    }

    /// The number of samples in the window.
    pub fn len(&self) -> (n: usize)
        ensures
            n == self@.samples.len(),
    {
        self.samples.len()
    }

    /// The number of samples that the window keeps.
    pub fn capacity(&self) -> (n: usize)
        ensures
            n == self@.capacity,
    {
        self.capacity
    }

    /// Adds a sample as the newest, and drops the oldest samples beyond
    /// the window's capacity.
    pub fn push(&mut self, sample: T)
        ensures
            final(self)@ == (WindowView {
                samples: newest_of(old(self)@.samples.push(sample), old(self)@.capacity),
                capacity: old(self)@.capacity,
            }),
    {
        self.samples.push_back(sample);
        let ghost all = self.samples@;
        while self.samples.len() > self.capacity
            invariant
                self.capacity == old(self).capacity,
                all == old(self)@.samples.push(sample),
                self.samples@.len() <= all.len(),
                self.samples@.len() >= self.capacity || self.samples@.len() == all.len(),
                self.samples@ == all.subrange(all.len() - self.samples@.len(), all.len() as int),
            decreases self.samples@.len(),
        {
            let _ = self.samples.pop_front();
        }
        assert(self.samples@ =~= newest_of(all, old(self)@.capacity));
    }

    /// The samples of the window, oldest first.
    pub fn samples(&self) -> (s: &VecDeque<T>)
        ensures
            s@ == self@.samples,
    {
        &self.samples
    }
}

/// The rows of an image in reverse order: the image is cut into rows of
/// `row_bytes` bytes, the last of which may be shorter, and the rows are
/// put together again from the last to the first.
pub open spec fn rows_reversed(image: Seq<u8>, row_bytes: nat) -> Seq<u8>
    recommends
        row_bytes > 0,
    decreases image.len(),
{
    if image.len() <= row_bytes || row_bytes == 0 {
        image
    } else {
        rows_reversed(image.subrange(row_bytes as int, image.len() as int), row_bytes)
            + image.subrange(0, row_bytes as int)
    }
}

/// Turns an image that was read bottom row first into one that is stored
/// top row first, and back.
pub fn flip_rows(image: &Vec<u8>, row_bytes: usize) -> (flipped: Vec<u8>)
    requires
        row_bytes > 0,
    ensures
        flipped@ == rows_reversed(image@, row_bytes as nat),
        flipped@.len() == image@.len(),
{
    let n: usize = image.len();
    let mut flipped: Vec<u8> = Vec::new();
    if n == 0 {
        return flipped;
    }
    proof {
        let q = (n - 1) / (row_bytes as int);
        vstd::arithmetic::div_mod::lemma_fundamental_div_mod((n - 1) as int, row_bytes as int);
        vstd::arithmetic::div_mod::lemma_mod_bound((n - 1) as int, row_bytes as int);
        vstd::arithmetic::div_mod::lemma_mod_multiples_basic(q, row_bytes as int);
        assert(q * row_bytes == row_bytes * q) by (nonlinear_arith);
        assert(image@.subrange(n as int, n as int) =~= Seq::<u8>::empty());
    }
    // Start of the last row, which may be shorter than the others.
    let mut start: usize = ((n - 1) / row_bytes) * row_bytes;
    let mut end: usize = n;
    loop
        invariant_except_break
            row_bytes > 0,
            n == image@.len(),
            start < end <= n,
            end - start <= row_bytes,
            start % row_bytes == 0,
            end == n || end - start == row_bytes,
            flipped@ == rows_reversed(image@.subrange(end as int, n as int), row_bytes as nat),
            flipped@.len() == n - end,
        ensures
            flipped@ == rows_reversed(image@, row_bytes as nat),
            flipped@.len() == n,
        decreases start,
    {
        let ghost before = flipped@;
        let mut i: usize = start;
        while i < end
            invariant
                start <= i <= end <= n,
                n == image@.len(),
                flipped@ == before + image@.subrange(start as int, i as int),
            decreases end - i,
        {
            flipped.push(image[i]);
            assert(flipped@ =~= before + image@.subrange(start as int, i + 1));
            i = i + 1;
        }
        proof {
            lemma_rows_reversed_step(image@, row_bytes as nat, start as int, end as int);
        }
        if start == 0 {
            assert(image@.subrange(0, n as int) =~= image@);
            break;
        }
        proof {
            vstd::arithmetic::div_mod::lemma_fundamental_div_mod(start as int, row_bytes as int);
            let q = (start as int) / (row_bytes as int);
            assert(start == row_bytes * q);
            assert(q >= 1) by (nonlinear_arith)
                requires
                    start == row_bytes * q,
                    start > 0,
                    row_bytes > 0,
            ;
            assert(start - row_bytes == row_bytes * (q - 1)) by (nonlinear_arith)
                requires
                    start == row_bytes * q,
            ;
            assert(start >= row_bytes) by (nonlinear_arith)
                requires
                    start == row_bytes * q,
                    q >= 1,
                    row_bytes > 0,
            ;
            vstd::arithmetic::div_mod::lemma_mod_multiples_basic(q - 1, row_bytes as int);
            assert(row_bytes * (q - 1) == (q - 1) * row_bytes) by (nonlinear_arith);
        }
        end = start;
        start = start - row_bytes;
    }
    flipped
}

/// Putting the row `[start, end)` behind the reversed rows that follow it
/// gives the reversed rows from `start` on.
proof fn lemma_rows_reversed_step(image: Seq<u8>, row_bytes: nat, start: int, end: int)
    requires
        row_bytes > 0,
        0 <= start < end <= image.len(),
        end - start <= row_bytes,
        end == image.len() || end - start == row_bytes,
    ensures
        rows_reversed(image.subrange(end, image.len() as int), row_bytes) + image.subrange(start, end)
            == rows_reversed(image.subrange(start, image.len() as int), row_bytes),
{
    let n = image.len() as int;
    let tail = image.subrange(start, n);
    if end == n {
        assert(image.subrange(end, n) =~= Seq::<u8>::empty());
        assert(rows_reversed(image.subrange(end, n), row_bytes) =~= Seq::<u8>::empty());
        assert(Seq::<u8>::empty() + tail =~= tail);
    } else {
        assert(tail.len() > row_bytes);
        assert(tail.subrange(row_bytes as int, tail.len() as int) =~= image.subrange(end, n));
        assert(tail.subrange(0, row_bytes as int) =~= image.subrange(start, end));
    }
}

} // verus!
