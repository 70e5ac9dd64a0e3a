use radiance_cascades::shader::{
    after_compile, after_link, compute_stages, first_step, BuildError, BuildStep, LoadShaders,
    ShaderStage,
};

fn listed(shaders: LoadShaders) -> Vec<(ShaderStage, String)> {
    shaders.stages().into_iter().map(|s| (s.stage, s.source)).collect()
}

#[test]
fn vertex_and_fragment_come_first() {
    let shaders = LoadShaders::new(String::from("v"), String::from("f"));
    assert_eq!(
        listed(shaders),
        vec![(ShaderStage::Vertex, String::from("v")), (ShaderStage::Fragment, String::from("f"))]
    );
}

#[test]
fn optional_stages_follow_in_order() {
    let shaders = LoadShaders::new(String::from("v"), String::from("f"))
        .tesselation(String::from("tc"), String::from("te"))
        .geometry(String::from("g"));
    assert_eq!(
        listed(shaders),
        vec![
            (ShaderStage::Vertex, String::from("v")),
            (ShaderStage::Fragment, String::from("f")),
            (ShaderStage::Geometry, String::from("g")),
            (ShaderStage::TessControl, String::from("tc")),
            (ShaderStage::TessEvaluation, String::from("te")),
        ]
    );
}

#[test]
fn geometry_alone_and_tesselation_alone() {
    let with_geometry = LoadShaders::new(String::from("v"), String::from("f")).geometry(String::from("g"));
    assert_eq!(listed(with_geometry).len(), 3);
    let with_tesselation =
        LoadShaders::new(String::from("v"), String::from("f")).tesselation(String::from("a"), String::from("b"));
    assert_eq!(
        listed(with_tesselation)[2..],
        [(ShaderStage::TessControl, String::from("a")), (ShaderStage::TessEvaluation, String::from("b"))]
    );
}

#[test]
fn a_later_geometry_shader_replaces_the_earlier() {
    let shaders = LoadShaders::new(String::from("v"), String::from("f"))
        .geometry(String::from("old"))
        .geometry(String::from("new"));
    assert_eq!(listed(shaders)[2], (ShaderStage::Geometry, String::from("new")));
}

#[test]
fn a_compute_program_has_one_stage() {
    let stages = compute_stages(String::from("void main() {}"));
    assert_eq!(stages.len(), 1);
    assert_eq!(stages[0].stage, ShaderStage::Compute);
    assert_eq!(stages[0].source, "void main() {}");
}

#[test]
fn build_walks_through_the_stages() {
    assert_eq!(first_step(0), BuildStep::Link);
    assert_eq!(first_step(3), BuildStep::Compile(0));
    let next = after_compile(3, 0, ShaderStage::Vertex, true, String::new()).unwrap();
    assert_eq!(next, BuildStep::Compile(1));
    let next = after_compile(3, 1, ShaderStage::Fragment, true, String::from("warning")).unwrap();
    assert_eq!(next, BuildStep::Compile(2));
    let next = after_compile(3, 2, ShaderStage::Geometry, true, String::new()).unwrap();
    assert_eq!(next, BuildStep::Link);
    assert_eq!(after_link(true, String::new()).unwrap(), BuildStep::Release);
}

#[test]
fn a_failed_compile_surfaces_its_log() {
    let failed = after_compile(2, 1, ShaderStage::Fragment, false, String::from("0:12: syntax error"));
    match failed {
        Err(BuildError::Compile { index, stage, log }) => {
            assert_eq!(index, 1);
            assert_eq!(stage, ShaderStage::Fragment);
            assert_eq!(log, "0:12: syntax error");
        }
        _ => panic!("the build went on after a failed compile"),
    }
    let failed = after_compile(2, 1, ShaderStage::Fragment, false, String::from("full text")).unwrap_err();
    assert_eq!(failed.log(), "full text");
}

#[test]
fn a_failed_link_surfaces_its_log() {
    match after_link(false, String::from("unresolved symbol")) {
        Err(BuildError::Link { log }) => assert_eq!(log, "unresolved symbol"),
        _ => panic!("the build went on after a failed link"),
    }
    assert_eq!(after_link(false, String::from("x")).unwrap_err().log(), "x");
}
