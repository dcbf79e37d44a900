use shape_renderer::command::Command;
use shape_renderer::pool::ShaderPool;
use shape_renderer::shader::{BuildEvent, Shader, ShaderBuild};

fn program(name: u32) -> Shader {
    let (build, _) = ShaderBuild::new();
    let (build, _) =
        build.step(BuildEvent::StageCompiled { object: 1, compiled: true, log: String::new() });
    let (build, _) =
        build.step(BuildEvent::StageCompiled { object: 2, compiled: true, log: String::new() });
    let (build, _) =
        build.step(BuildEvent::ProgramLinked { program: name, linked: true, log: String::new() });
    build.finish().unwrap().unwrap()
}

#[test]
fn a_program_is_released_by_its_last_owner() {
    let mut pool = ShaderPool::new();
    let shader = program(7);
    assert_eq!(pool.owners(shader), 0);
    assert!(!pool.contains(shader));
    assert!(pool.register(shader));
    assert!(pool.acquire(shader));
    assert!(pool.acquire(shader));
    assert_eq!(pool.owners(shader), 3);
    assert_eq!(pool.release::<f32>(shader), None);
    assert_eq!(pool.release::<f32>(shader), None);
    assert_eq!(pool.owners(shader), 1);
    assert_eq!(pool.release::<f32>(shader), Some(Command::DeleteProgram { program: 7 }));
    assert_eq!(pool.owners(shader), 0);
    assert!(!pool.contains(shader));
}

#[test]
fn a_released_program_is_released_once() {
    let mut pool = ShaderPool::new();
    let shader = program(7);
    assert!(pool.register(shader));
    assert_eq!(pool.release::<f32>(shader), Some(Command::DeleteProgram { program: 7 }));
    assert_eq!(pool.release::<f32>(shader), None);
    assert!(!pool.acquire(shader));
    assert_eq!(pool.owners(shader), 0);
}

#[test]
fn a_program_cannot_be_registered_twice() {
    let mut pool = ShaderPool::new();
    assert!(pool.register(program(7)));
    assert!(!pool.register(program(7)));
    assert_eq!(pool.owners(program(7)), 1);
    assert!(pool.register(program(8)));
    assert_eq!(pool.owners(program(8)), 1);
}

#[test]
fn programs_are_counted_apart() {
    let mut pool = ShaderPool::new();
    assert!(pool.register(program(1)));
    assert!(pool.register(program(2)));
    assert!(pool.acquire(program(1)));
    assert_eq!(pool.release::<f32>(program(2)), Some(Command::DeleteProgram { program: 2 }));
    assert_eq!(pool.owners(program(1)), 2);
    assert!(!pool.acquire(program(3)));
    assert_eq!(pool.release::<f32>(program(3)), None);
}
