use vstd::prelude::*;

verus! {

/// The pipeline stage that a shader source is compiled for.
#[derive(Debug, Clone, Copy, PartialEq, Eq, Structural)]
pub enum ShaderStage {
    Vertex,
    Fragment,
    Geometry,
    TessControl,
    TessEvaluation,
    Compute,
}

/// A shader source together with the stage it belongs to.
#[derive(Debug)]
pub struct StageSource {
    pub stage: ShaderStage,
    pub source: String,
}

/// The sources of a shader program: a vertex and a fragment shader, and
/// optionally a geometry shader and a pair of tesselation shaders.
pub struct LoadShaders {
    vertex: String,
    fragment: String,
    geometry: Option<String>,
    tesselation_evaluation: Option<String>,
    tesselation_control: Option<String>,
}

/// A source that may be absent, as a mathematical value.
pub open spec fn source_view(source: Option<String>) -> Option<Seq<char>> {
    match source {
        Some(s) => Some(s@),
        None => None,
    }
}

/// The stage list of a program with the given sources: vertex, fragment,
/// then geometry, tesselation control and tesselation evaluation as far as
/// they are present.
pub open spec fn stage_list(
    vertex: Seq<char>,
    fragment: Seq<char>,
    geometry: Option<Seq<char>>,
    control: Option<Seq<char>>,
    evaluation: Option<Seq<char>>,
) -> Seq<(ShaderStage, Seq<char>)> {
    seq![(ShaderStage::Vertex, vertex), (ShaderStage::Fragment, fragment)] + optional_stage(
        ShaderStage::Geometry,
        geometry,
    ) + optional_stage(ShaderStage::TessControl, control) + optional_stage(
        ShaderStage::TessEvaluation,
        evaluation,
    )
}

/// The stage list of a source that may be absent: one entry or none.
pub open spec fn optional_stage(stage: ShaderStage, source: Option<Seq<char>>) -> Seq<
    (ShaderStage, Seq<char>),
> {
    match source {
        Some(s) => seq![(stage, s)],
        None => seq![],
    }
}

/// A list of stage sources as a mathematical value.
pub open spec fn stages_view(stages: Seq<StageSource>) -> Seq<(ShaderStage, Seq<char>)> {
    stages.map_values(|s: StageSource| (s.stage, s.source@))
}

impl LoadShaders {
    /// The vertex shader source.
    pub closed spec fn vertex_source(&self) -> Seq<char> {
        self.vertex@
    }

    /// The fragment shader source.
    pub closed spec fn fragment_source(&self) -> Seq<char> {
        self.fragment@
    }

    /// The geometry shader source, if any.
    pub closed spec fn geometry_source(&self) -> Option<Seq<char>> {
        source_view(self.geometry)
    }

    /// The tesselation control shader source, if any.
    pub closed spec fn control_source(&self) -> Option<Seq<char>> {
        source_view(self.tesselation_control)
    }

    /// The tesselation evaluation shader source, if any.
    pub closed spec fn evaluation_source(&self) -> Option<Seq<char>> {
        source_view(self.tesselation_evaluation)
    }

    /// A program of a vertex and a fragment shader.
    pub fn new(vertex: String, fragment: String) -> (shaders: LoadShaders)
        ensures
            shaders.vertex_source() == vertex@,
            shaders.fragment_source() == fragment@,
            shaders.geometry_source() is None,
            shaders.control_source() is None,
            shaders.evaluation_source() is None,
    {
        LoadShaders {
            vertex,
            fragment,
            geometry: None,
            tesselation_evaluation: None,
            tesselation_control: None,
        }
    }

    /// The same program with `geometry_shader` as its geometry shader.
    pub fn geometry(self, geometry_shader: String) -> (shaders: LoadShaders)
        ensures
            shaders.vertex_source() == self.vertex_source(),
            shaders.fragment_source() == self.fragment_source(),
            shaders.geometry_source() == Some(geometry_shader@),
            shaders.control_source() == self.control_source(),
            shaders.evaluation_source() == self.evaluation_source(),
    {
        let mut shaders = self;
        shaders.geometry = Some(geometry_shader);
        shaders
    }

    /// The same program with the given pair of tesselation shaders.
    pub fn tesselation(
        self,
        tesselation_control_shader: String,
        tesselation_evaluation_shader: String,
    ) -> (shaders: LoadShaders)
        ensures
            shaders.vertex_source() == self.vertex_source(),
            shaders.fragment_source() == self.fragment_source(),
            shaders.geometry_source() == self.geometry_source(),
            shaders.control_source() == Some(tesselation_control_shader@),
            shaders.evaluation_source() == Some(tesselation_evaluation_shader@),
    {
        let mut shaders = self;
        shaders.tesselation_control = Some(tesselation_control_shader);
        shaders.tesselation_evaluation = Some(tesselation_evaluation_shader);
        shaders
    }

    /// The sources of the program in the order in which they are compiled
    /// and attached.
    pub fn stages(self) -> (stages: Vec<StageSource>)
        ensures
            stages_view(stages@) == stage_list(
                self.vertex_source(),
                self.fragment_source(),
                self.geometry_source(),
                self.control_source(),
                self.evaluation_source(),
            ),
    {
        let ghost expected = stage_list(
            self.vertex_source(),
            self.fragment_source(),
            self.geometry_source(),
            self.control_source(),
            self.evaluation_source(),
        );
        let mut stages: Vec<StageSource> = Vec::new();
        stages.push(StageSource { stage: ShaderStage::Vertex, source: self.vertex });
        stages.push(StageSource { stage: ShaderStage::Fragment, source: self.fragment });
        if let Some(source) = self.geometry {
            stages.push(StageSource { stage: ShaderStage::Geometry, source });
        }
        if let Some(source) = self.tesselation_control {
            stages.push(StageSource { stage: ShaderStage::TessControl, source });
        }
        if let Some(source) = self.tesselation_evaluation {
            stages.push(StageSource { stage: ShaderStage::TessEvaluation, source });
        }
        assert(stages_view(stages@) =~= expected);
        stages
    }
}

/// The stage list of a compute program: its one source.
pub fn compute_stages(compute_shader: String) -> (stages: Vec<StageSource>)
    ensures
        stages_view(stages@) == seq![(ShaderStage::Compute, compute_shader@)],
{
    let mut stages: Vec<StageSource> = Vec::new();
    stages.push(StageSource { stage: ShaderStage::Compute, source: compute_shader });
    assert(stages_view(stages@) =~= seq![(ShaderStage::Compute, compute_shader@)]);
    stages
}

/// Why a program could not be built. The log is the full diagnostic text
/// of the step that failed.
#[derive(Debug)]
pub enum BuildError {
    /// The source at position `index` of the stage list did not compile.
    Compile { index: usize, stage: ShaderStage, log: String },
    /// The compiled stages did not link.
    Link { log: String },
}

/// What the builder of a program does next.
#[derive(Debug, Clone, Copy, PartialEq, Eq, Structural)]
pub enum BuildStep {
    /// Compile the source at this position of the stage list and attach it.
    Compile(usize),
    /// Link the program.
    Link,
    /// Detach and delete the shaders: the program is ready.
    Release,
}

/// The first step for a stage list of `stage_count` sources.
pub fn first_step(stage_count: usize) -> (step: BuildStep)
    ensures
        step == if stage_count == 0 {
            BuildStep::Link
        } else {
            BuildStep::Compile(0)
        },
{
    if stage_count == 0 {
        BuildStep::Link
    } else {
        BuildStep::Compile(0)
    }
}

/// The step after the source at `index` was compiled with status
/// `compiled` and diagnostic log `log`: the build fails with the log, or
/// goes on to the next source, or to linking after the last.
pub fn after_compile(
    stage_count: usize,
    index: usize,
    stage: ShaderStage,
    compiled: bool,
    log: String,
) -> (r: Result<BuildStep, BuildError>)
    requires
        index < stage_count,
    ensures
        match r {
            Ok(step) => compiled && step == if index + 1 < stage_count {
                BuildStep::Compile((index + 1) as usize)
            } else {
                BuildStep::Link
            },
            Err(BuildError::Compile { index: i, stage: s, log: l }) => !compiled && i == index && s
                == stage && l@ == log@,
            Err(BuildError::Link { .. }) => false,
        },
{
    if !compiled {
        Err(BuildError::Compile { index, stage, log })
    } else if index + 1 < stage_count {
        Ok(BuildStep::Compile(index + 1))
    } else {
        Ok(BuildStep::Link)
    }
}

/// The step after the program was linked with status `linked` and
/// diagnostic log `log`.
pub fn after_link(linked: bool, log: String) -> (r: Result<BuildStep, BuildError>)
    ensures
        match r {
            Ok(step) => linked && step == BuildStep::Release,
            Err(BuildError::Link { log: l }) => !linked && l@ == log@,
            Err(BuildError::Compile { .. }) => false,
        },
{
    if linked {
        Ok(BuildStep::Release)
    } else {
        Err(BuildError::Link { log })
    }
}

impl BuildError {
    /// The diagnostic log of the failed step.
    pub fn log(&self) -> (log: &String)
        ensures
            log@ == match self {
                BuildError::Compile { log: l, .. } => l@,
                BuildError::Link { log: l } => l@,
            },
    {
        match self {
            BuildError::Compile { log, .. } => log,
            BuildError::Link { log } => log,
        }
    }
}

} // verus!
