use shape_renderer::command::Command;
use shape_renderer::shader::{BuildAction, BuildEvent, ShaderBuild, ShaderError, Stage};

fn compiled(object: u32) -> BuildEvent {
    BuildEvent::StageCompiled { object, compiled: true, log: String::new() }
}

fn not_compiled(object: u32, log: &str) -> BuildEvent {
    BuildEvent::StageCompiled { object, compiled: false, log: log.to_string() }
}

#[test]
fn a_build_begins_with_the_vertex_stage() {
    let (build, actions) = ShaderBuild::new();
    assert!(matches!(build, ShaderBuild::CompilingVertex));
    assert_eq!(actions, vec![BuildAction::CompileStage { stage: Stage::Vertex }]);
    assert!(build.finish().is_none());
}

#[test]
fn two_stages_and_a_link_make_a_program() {
    let (build, _) = ShaderBuild::new();
    let (build, actions) = build.step(compiled(10));
    assert!(matches!(build, ShaderBuild::CompilingFragment { vertex: 10 }));
    assert_eq!(actions, vec![BuildAction::CompileStage { stage: Stage::Fragment }]);
    let (build, actions) = build.step(compiled(11));
    assert!(matches!(build, ShaderBuild::Linking { vertex: 10, fragment: 11 }));
    assert_eq!(actions, vec![BuildAction::LinkProgram { vertex: 10, fragment: 11 }]);
    let (build, actions) =
        build.step(BuildEvent::ProgramLinked { program: 12, linked: true, log: String::new() });
    assert_eq!(
        actions,
        vec![BuildAction::DeleteStage { object: 10 }, BuildAction::DeleteStage { object: 11 }]
    );
    let shader = build.finish().unwrap().unwrap();
    assert_eq!(shader.id(), 12);
    assert_eq!(shader.use_program::<f32>(), Command::UseProgram { program: 12 });
}

#[test]
fn a_vertex_stage_with_a_syntax_error_fails_the_build() {
    let (build, _) = ShaderBuild::new();
    let (build, actions) = build.step(not_compiled(10, "0:1: syntax error"));
    assert_eq!(actions, vec![BuildAction::DeleteStage { object: 10 }]);
    match build.finish() {
        Some(Err(ShaderError::Compile { stage, log })) => {
            assert_eq!(stage, Stage::Vertex);
            assert_eq!(log, "0:1: syntax error");
        }
        other => panic!("unexpected outcome {:?}", other),
    }
}

#[test]
fn a_fragment_stage_with_a_syntax_error_fails_the_build() {
    let (build, _) = ShaderBuild::new();
    let (build, _) = build.step(compiled(10));
    let (build, actions) = build.step(not_compiled(11, "0:7: unexpected token"));
    assert_eq!(
        actions,
        vec![BuildAction::DeleteStage { object: 10 }, BuildAction::DeleteStage { object: 11 }]
    );
    match build.finish() {
        Some(Err(ShaderError::Compile { stage, log })) => {
            assert_eq!(stage, Stage::Fragment);
            assert_eq!(log, "0:7: unexpected token");
        }
        other => panic!("unexpected outcome {:?}", other),
    }
}

#[test]
fn stages_that_do_not_fit_fail_at_the_link() {
    let (build, _) = ShaderBuild::new();
    let (build, _) = build.step(compiled(10));
    let (build, _) = build.step(compiled(11));
    let (build, actions) = build.step(BuildEvent::ProgramLinked {
        program: 12,
        linked: false,
        log: "varying mismatch".to_string(),
    });
    assert_eq!(
        actions,
        vec![
            BuildAction::DeleteStage { object: 10 },
            BuildAction::DeleteStage { object: 11 },
            BuildAction::DeleteProgram { program: 12 },
        ]
    );
    match build.finish() {
        Some(Err(ShaderError::Link { log })) => assert_eq!(log, "varying mismatch"),
        other => panic!("unexpected outcome {:?}", other),
    }
}

#[test]
fn an_answer_that_nobody_waits_for_changes_nothing() {
    let (build, _) = ShaderBuild::new();
    let (build, actions) =
        build.step(BuildEvent::ProgramLinked { program: 3, linked: true, log: String::new() });
    assert!(matches!(build, ShaderBuild::CompilingVertex));
    assert!(actions.is_empty());

    let (build, _) = build.step(compiled(10));
    let (build, _) = build.step(compiled(11));
    let (build, actions) = build.step(compiled(13));
    assert!(matches!(build, ShaderBuild::Linking { vertex: 10, fragment: 11 }));
    assert!(actions.is_empty());

    let (build, _) =
        build.step(BuildEvent::ProgramLinked { program: 12, linked: true, log: String::new() });
    let (build, actions) = build.step(compiled(14));
    assert!(actions.is_empty());
    let (build, actions) =
        build.step(BuildEvent::ProgramLinked { program: 15, linked: false, log: String::new() });
    assert!(actions.is_empty());
    assert_eq!(build.finish().unwrap().unwrap().id(), 12);
}

#[test]
fn a_failed_build_stays_failed() {
    let (build, _) = ShaderBuild::new();
    let (build, _) = build.step(not_compiled(10, "broken"));
    let (build, actions) = build.step(compiled(11));
    assert!(actions.is_empty());
    assert!(matches!(build.finish(), Some(Err(ShaderError::Compile { stage: Stage::Vertex, .. }))));
}
