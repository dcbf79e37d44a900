use shape_renderer::any_shape::AnyShape;
use shape_renderer::app::{Application, SceneError, Turn};
use shape_renderer::buffers::BufferHandles;
use shape_renderer::circle::{Circle, RingSample};
use shape_renderer::command::{Command, Matrix4, Primitive};
use shape_renderer::cube::Cube;
use shape_renderer::draw::Shape;
use shape_renderer::rectangle::Rectangle;
use shape_renderer::scalar::Scalars;
use shape_renderer::shader::{BuildEvent, Shader, ShaderBuild, UniformLocation};
use shape_renderer::triangle::Triangle;
use shape_renderer::vector2d::Vector2D;
use shape_renderer::vector3d::Vector3D;

fn program(name: u32) -> Shader {
    let (build, _) = ShaderBuild::new();
    let (build, _) =
        build.step(BuildEvent::StageCompiled { object: 1, compiled: true, log: String::new() });
    let (build, _) =
        build.step(BuildEvent::StageCompiled { object: 2, compiled: true, log: String::new() });
    let (build, _) =
        build.step(BuildEvent::ProgramLinked { program: name, linked: true, log: String::new() });
    build.finish().unwrap().unwrap()
}

fn scalars() -> Scalars<f32> {
    Scalars::new(0.0, 1.0)
}

fn triangle(shader: u32, array: u32, buffer: u32) -> AnyShape<f32> {
    AnyShape::Triangle(Triangle::new(
        program(shader),
        Vector2D::new(-0.5, 0.6),
        Vector2D::new(0.5, 0.6),
        Vector2D::new(0.0, 0.9),
        Vector2D::new(0.0, -1.0),
        &scalars(),
        BufferHandles::new(array, buffer).unwrap(),
    ))
}

fn rectangle(shader: u32, array: u32, buffer: u32) -> AnyShape<f32> {
    AnyShape::Rectangle(Rectangle::new(
        program(shader),
        Vector2D::new(0.5, -0.5),
        Vector2D::new(0.9, -0.9),
        &scalars(),
        BufferHandles::new(array, buffer).unwrap(),
    ))
}

fn circle(shader: u32, array: u32, buffer: u32) -> AnyShape<f32> {
    let sample = |i: usize| RingSample {
        position: Vector2D::new(i as f32, 0.0),
        texture: Vector2D::new(0.0, i as f32),
    };
    AnyShape::Circle(Circle::new(
        program(shader),
        4,
        &sample,
        &scalars(),
        BufferHandles::new(array, buffer).unwrap(),
    ))
}

fn cube(shader: u32, array: u32, buffer: u32) -> Cube<f32> {
    Cube::new(
        program(shader),
        Vector3D::new(-0.3, -0.3, -0.3),
        Vector3D::new(0.3, 0.3, 0.3),
        &scalars(),
        UniformLocation::new(2),
        BufferHandles::new(array, buffer).unwrap(),
    )
}

fn draw_of(shader: u32, array: u32, mode: Primitive, count: i32) -> Vec<Command<f32>> {
    vec![
        Command::UseProgram { program: shader },
        Command::BindVertexArray { array },
        Command::DrawArrays { mode, first: 0, count },
        Command::BindVertexArray { array: 0 },
    ]
}

fn release_of(array: u32, buffer: u32) -> Vec<Command<f32>> {
    vec![Command::DeleteVertexArray { array }, Command::DeleteBuffer { buffer }]
}

#[test]
fn an_empty_scene_polls_clears_and_presents() {
    let mut app: Application<f32> = Application::new();
    assert_eq!(app.shape_count(), 0);
    assert_eq!(app.cube_rotation(), None);
    assert_eq!(
        app.frame(None),
        vec![
            Command::PollEvents,
            Command::DepthTest { enabled: false },
            Command::Clear { color: true, depth: true },
            Command::SwapBuffers,
        ]
    );
    assert_eq!(app.cleanup(), vec![]);
}

#[test]
fn a_shape_needs_a_program_of_the_scene() {
    let mut app: Application<f32> = Application::new();
    assert!(app.add_program(program(1)));
    match app.add_shape(triangle(2, 10, 11)) {
        Err((reason, shape)) => {
            assert_eq!(reason, SceneError::UnknownProgram);
            assert_eq!(shape.handles().vertex_array(), 10);
        }
        Ok(_) => panic!("the shape was taken"),
    }
    assert_eq!(app.shape_count(), 0);
}

#[test]
fn shapes_do_not_share_gpu_objects() {
    let mut app: Application<f32> = Application::new();
    assert!(app.add_program(program(1)));
    assert!(app.add_shape(triangle(1, 10, 11)).is_ok());
    assert!(matches!(app.add_shape(rectangle(1, 10, 12)), Err((SceneError::HandleInUse, _))));
    assert!(matches!(app.add_shape(rectangle(1, 12, 11)), Err((SceneError::HandleInUse, _))));
    assert!(matches!(app.set_cube(cube(1, 10, 13)), Err((SceneError::HandleInUse, _))));
    assert!(app.add_shape(rectangle(1, 11, 10)).is_ok());
    assert!(app.set_cube(cube(1, 12, 12)).is_ok());
    assert!(matches!(app.add_shape(circle(1, 12, 14)), Err((SceneError::HandleInUse, _))));
    assert_eq!(app.shape_count(), 2);
}

#[test]
fn a_scene_has_one_animated_cube() {
    let mut app: Application<f32> = Application::new();
    assert!(app.add_program(program(1)));
    let first = cube(1, 10, 11);
    let upload = first.init();
    assert_eq!(app.set_cube(first).unwrap(), upload);
    assert!(matches!(app.set_cube(cube(1, 20, 21)), Err((SceneError::CubePresent, _))));
    assert!(matches!(app.set_cube(cube(9, 10, 11)), Err((SceneError::CubePresent, _))));
    assert_eq!(app.cube_rotation(), Some(0.0));
}

#[test]
fn a_program_is_taken_once() {
    let mut app: Application<f32> = Application::new();
    assert!(app.add_program(program(1)));
    assert!(!app.add_program(program(1)));
    assert!(app.add_program(program(2)));
    assert_eq!(
        app.cleanup(),
        vec![Command::DeleteProgram { program: 1 }, Command::DeleteProgram { program: 2 }]
    );
}

#[test]
fn adding_a_shape_returns_its_upload() {
    let mut app: Application<f32> = Application::new();
    assert!(app.add_program(program(1)));
    let shape = rectangle(1, 10, 11);
    let upload = shape.init();
    assert_eq!(app.add_shape(shape).unwrap(), upload);
    assert_eq!(app.shape_count(), 1);
}

#[test]
fn shapes_are_drawn_in_the_order_added_and_the_cube_last() {
    let mut app: Application<f32> = Application::new();
    for name in 1..=3 {
        assert!(app.add_program(program(name)));
    }
    assert!(app.set_cube(cube(3, 40, 41)).is_ok());
    assert!(app.add_shape(triangle(1, 10, 11)).is_ok());
    assert!(app.add_shape(rectangle(2, 20, 21)).is_ok());
    assert!(app.add_shape(circle(1, 30, 31)).is_ok());

    let mut expected = vec![
        Command::PollEvents,
        Command::DepthTest { enabled: true },
        Command::Clear { color: true, depth: true },
    ];
    expected.extend(draw_of(1, 10, Primitive::Triangles, 3));
    expected.extend(draw_of(2, 20, Primitive::TriangleFan, 4));
    expected.extend(draw_of(1, 30, Primitive::TriangleFan, 5));
    expected.push(Command::UseProgram { program: 3 });
    expected.push(Command::UniformMatrix4 {
        location: 2,
        matrix: Matrix4::identity(&scalars()),
    });
    expected.push(Command::BindVertexArray { array: 40 });
    expected.push(Command::DrawArrays { mode: Primitive::Triangles, first: 0, count: 36 });
    expected.push(Command::BindVertexArray { array: 0 });
    expected.push(Command::SwapBuffers);
    assert_eq!(app.frame(None), expected);
    assert_eq!(app.run(false, None), expected);
}

#[test]
fn flat_shapes_need_no_depth_test() {
    let mut app: Application<f32> = Application::new();
    assert!(app.add_program(program(1)));
    assert!(app.add_shape(triangle(1, 10, 11)).is_ok());
    assert_eq!(app.frame(None)[1], Command::DepthTest { enabled: false });
    assert!(app.add_shape(AnyShape::Cube(cube(1, 20, 21))).is_ok());
    assert_eq!(app.frame(None)[1], Command::DepthTest { enabled: true });
}

#[test]
fn a_turn_moves_the_cube_before_it_is_drawn() {
    let mut app: Application<f32> = Application::new();
    assert!(app.add_program(program(3)));
    assert!(app.set_cube(cube(3, 40, 41)).is_ok());
    let transform = Matrix4 { cells: [0.5; 16] };
    let commands = app.frame(Some(Turn { angle: 0.01, transform }));
    assert_eq!(commands[4], Command::UniformMatrix4 { location: 2, matrix: transform });
    assert_eq!(app.cube_rotation(), Some(0.01));
    let commands = app.frame(None);
    assert_eq!(commands[4], Command::UniformMatrix4 { location: 2, matrix: transform });
    assert_eq!(app.cube_rotation(), Some(0.01));
}

#[test]
fn a_turn_without_a_cube_is_ignored() {
    let mut app: Application<f32> = Application::new();
    let transform = Matrix4 { cells: [0.5; 16] };
    assert_eq!(app.frame(Some(Turn { angle: 0.01, transform })).len(), 4);
    assert_eq!(app.cube_rotation(), None);
}

#[test]
fn the_angle_after_many_frames_is_the_step_times_their_number() {
    let mut app: Application<f32> = Application::new();
    assert!(app.add_program(program(3)));
    assert!(app.set_cube(cube(3, 40, 41)).is_ok());
    let frames = 200;
    for _ in 0..frames {
        let angle = app.cube_rotation().unwrap() + 0.01;
        app.run(false, Some(Turn { angle, transform: Matrix4::identity(&scalars()) }));
    }
    assert!((app.cube_rotation().unwrap() - 0.01 * frames as f32).abs() < 1e-3);
}

#[test]
fn cleanup_releases_shapes_then_the_cube_then_the_programs() {
    let mut app: Application<f32> = Application::new();
    for name in 1..=3 {
        assert!(app.add_program(program(name)));
    }
    assert!(app.set_cube(cube(3, 40, 41)).is_ok());
    assert!(app.add_shape(triangle(1, 10, 11)).is_ok());
    assert!(app.add_shape(rectangle(2, 20, 21)).is_ok());
    assert!(app.add_shape(circle(1, 30, 31)).is_ok());

    let mut expected = Vec::new();
    expected.extend(release_of(10, 11));
    expected.extend(release_of(20, 21));
    expected.extend(release_of(30, 31));
    expected.extend(release_of(40, 41));
    expected.push(Command::DeleteProgram { program: 1 });
    expected.push(Command::DeleteProgram { program: 2 });
    expected.push(Command::DeleteProgram { program: 3 });
    assert_eq!(app.cleanup(), expected);

    assert_eq!(app.shape_count(), 0);
    assert_eq!(app.cube_rotation(), None);
    assert_eq!(app.cleanup(), vec![]);
    assert!(app.add_program(program(1)));
}

#[test]
fn a_closing_window_ends_the_scene_without_a_frame() {
    let mut app: Application<f32> = Application::new();
    assert!(app.add_program(program(1)));
    assert!(app.add_shape(triangle(1, 10, 11)).is_ok());
    let mut expected = release_of(10, 11);
    expected.push(Command::DeleteProgram { program: 1 });
    assert_eq!(app.run(true, None), expected);
    assert_eq!(app.shape_count(), 0);
}

#[test]
fn a_program_let_go_early_leaves_with_its_last_shape() {
    let mut app: Application<f32> = Application::new();
    assert!(app.add_program(program(1)));
    assert!(app.add_program(program(2)));
    assert!(app.add_program(program(3)));
    assert!(app.add_shape(triangle(1, 10, 11)).is_ok());
    assert!(app.add_shape(rectangle(2, 20, 21)).is_ok());
    assert!(app.add_shape(circle(1, 30, 31)).is_ok());

    assert_eq!(app.release_program(program(1)), vec![]);
    assert_eq!(app.release_program(program(1)), vec![]);
    assert_eq!(app.release_program(program(3)), vec![Command::DeleteProgram { program: 3 }]);
    assert_eq!(app.release_program(program(9)), vec![]);

    let mut expected = Vec::new();
    expected.extend(release_of(10, 11));
    expected.extend(release_of(20, 21));
    expected.extend(release_of(30, 31));
    expected.push(Command::DeleteProgram { program: 1 });
    expected.push(Command::DeleteProgram { program: 2 });
    assert_eq!(app.cleanup(), expected);
}

#[test]
fn a_released_program_no_longer_takes_shapes() {
    let mut app: Application<f32> = Application::new();
    assert!(app.add_program(program(1)));
    assert_eq!(app.release_program(program(1)), vec![Command::DeleteProgram { program: 1 }]);
    assert!(matches!(app.add_shape(triangle(1, 10, 11)), Err((SceneError::UnknownProgram, _))));
}

#[test]
fn shapes_made_and_released_a_thousand_times_leave_nothing() {
    let mut app: Application<f32> = Application::new();
    for round in 0..1000u32 {
        assert!(app.add_program(program(1)));
        let shape = rectangle(1, 10, 11);
        let upload = shape.init();
        assert_eq!(app.add_shape(shape).unwrap(), upload);
        match &upload[2] {
            Command::BufferData { data } => assert_eq!(data.len(), 12),
            other => panic!("unexpected command {:?} in round {}", other, round),
        }
        let mut expected = release_of(10, 11);
        expected.push(Command::DeleteProgram { program: 1 });
        assert_eq!(app.cleanup(), expected);
        assert_eq!(app.shape_count(), 0);
    }
}
