use shape_renderer::buffers::BufferHandles;
use shape_renderer::command::{Command, Matrix4, Primitive, VertexAttribute};
use shape_renderer::cube::{rotation_uniform, Cube};
use shape_renderer::draw::Shape;
use shape_renderer::scalar::Scalars;
use shape_renderer::shader::{BuildEvent, Shader, ShaderBuild, UniformLocation};
use shape_renderer::vector3d::Vector3D;

fn program(name: u32) -> Shader {
    let (build, _) = ShaderBuild::new();
    let (build, _) =
        build.step(BuildEvent::StageCompiled { object: 1, compiled: true, log: String::new() });
    let (build, _) =
        build.step(BuildEvent::StageCompiled { object: 2, compiled: true, log: String::new() });
    let (build, _) =
        build.step(BuildEvent::ProgramLinked { program: name, linked: true, log: String::new() });
    build.finish().unwrap().unwrap()
}

fn cube_at(location: i32) -> Cube<f32> {
    Cube::new(
        program(6),
        Vector3D::new(-1.0f32, -2.0, -3.0),
        Vector3D::new(1.0, 2.0, 3.0),
        &Scalars::new(0.0, 1.0),
        UniformLocation::new(location),
        BufferHandles::new(31, 32).unwrap(),
    )
}

const IDENTITY: [f32; 16] =
    [1.0, 0.0, 0.0, 0.0, 0.0, 1.0, 0.0, 0.0, 0.0, 0.0, 1.0, 0.0, 0.0, 0.0, 0.0, 1.0];

#[test]
fn cube_has_thirty_six_vertices_in_six_faces() {
    let (bx, by, bz) = (-1.0f32, -2.0f32, -3.0f32);
    let (tx, ty, tz) = (1.0f32, 2.0f32, 3.0f32);
    let data = cube_at(0).generate_vertices();
    assert_eq!(data.len(), 108);
    let expected = vec![
        bx, by, tz, tx, by, tz, tx, ty, tz,
        tx, ty, tz, bx, ty, tz, bx, by, tz,
        tx, by, bz, bx, by, bz, bx, ty, bz,
        bx, ty, bz, tx, ty, bz, tx, by, bz,
        bx, ty, tz, bx, ty, bz, bx, by, bz,
        bx, by, bz, bx, by, tz, bx, ty, tz,
        tx, ty, tz, tx, ty, bz, tx, by, bz,
        tx, by, bz, tx, by, tz, tx, ty, tz,
        bx, ty, bz, tx, ty, bz, tx, ty, tz,
        tx, ty, tz, bx, ty, tz, bx, ty, bz,
        bx, by, bz, tx, by, bz, tx, by, tz,
        tx, by, tz, bx, by, tz, bx, by, bz,
    ];
    assert_eq!(data, expected);
}

#[test]
fn every_cube_coordinate_is_one_of_the_two_corners() {
    let low = [-1.0f32, -2.0, -3.0];
    let high = [1.0f32, 2.0, 3.0];
    let data = cube_at(0).generate_vertices();
    for (i, value) in data.iter().enumerate() {
        assert!(*value == low[i % 3] || *value == high[i % 3]);
    }
    let axis = [2, 2, 0, 0, 1, 1];
    let level = [3.0f32, -3.0, -1.0, 1.0, 2.0, -2.0];
    for face in 0..6 {
        for vertex in 0..6 {
            assert_eq!(data[18 * face + 3 * vertex + axis[face]], level[face]);
        }
    }
}

#[test]
fn new_cube_has_not_turned() {
    let cube = cube_at(4);
    assert_eq!(cube.rotation(), 0.0);
    assert_eq!(cube.matrix().cells, IDENTITY);
}

#[test]
fn cube_draw_stores_the_rotation_where_the_program_has_it() {
    let cube = cube_at(4);
    assert_eq!(
        cube.draw(),
        vec![
            Command::UseProgram { program: 6 },
            Command::UniformMatrix4 { location: 4, matrix: Matrix4 { cells: IDENTITY } },
            Command::BindVertexArray { array: 31 },
            Command::DrawArrays { mode: Primitive::Triangles, first: 0, count: 36 },
            Command::BindVertexArray { array: 0 },
        ]
    );
}

#[test]
fn cube_draw_leaves_a_missing_uniform_out() {
    let cube = cube_at(-1);
    assert_eq!(
        cube.draw(),
        vec![
            Command::UseProgram { program: 6 },
            Command::BindVertexArray { array: 31 },
            Command::DrawArrays { mode: Primitive::Triangles, first: 0, count: 36 },
            Command::BindVertexArray { array: 0 },
        ]
    );
    assert!(!UniformLocation::new(-1).is_present());
    assert!(UniformLocation::new(0).is_present());
}

#[test]
fn cube_uploads_positions_only() {
    let cube = cube_at(0);
    let commands = cube.init();
    assert_eq!(commands.len(), 7);
    assert_eq!(commands[0], Command::BindVertexArray { array: 31 });
    assert_eq!(commands[1], Command::BindBuffer { buffer: 32 });
    assert_eq!(commands[2], Command::BufferData { data: cube.generate_vertices() });
    assert_eq!(
        commands[3],
        Command::VertexAttribPointer {
            attribute: VertexAttribute { index: 0, components: 3, stride: 3, offset: 0 },
        }
    );
    assert_eq!(commands[4], Command::EnableVertexAttribArray { index: 0 });
    assert_eq!(commands[5], Command::BindBuffer { buffer: 0 });
    assert_eq!(commands[6], Command::BindVertexArray { array: 0 });
}

#[test]
fn the_angle_grows_by_the_step_each_frame() {
    let mut cube = cube_at(0);
    let steps = 250;
    for _ in 0..steps {
        let angle = cube.rotation() + 0.01;
        cube.set_rotation(angle, Matrix4 { cells: [angle; 16] });
    }
    assert!((cube.rotation() - 0.01 * steps as f32).abs() < 1e-3);
    assert_eq!(cube.matrix().cells, [cube.rotation(); 16]);
    assert_eq!(cube.generate_vertices(), cube_at(0).generate_vertices());
}

#[test]
fn the_rotation_uniform_is_called_rotation() {
    assert_eq!(rotation_uniform(), "rotation");
}
