use shape_renderer::buffers::BufferHandles;
use shape_renderer::command::{Command, Matrix4, Primitive, VertexAttribute};
use shape_renderer::draw::Shape;
use shape_renderer::rectangle::Rectangle;
use shape_renderer::scalar::Scalars;
use shape_renderer::shader::{BuildEvent, Shader, ShaderBuild};
use shape_renderer::triangle::Triangle;
use shape_renderer::vector2d::Vector2D;
use shape_renderer::vector3d::Vector3D;

fn linked(program: u32) -> Shader {
    let (build, _) = ShaderBuild::new();
    let (build, _) = build.step(BuildEvent::StageCompiled {
        object: 1000 + program,
        compiled: true,
        log: String::new(),
    });
    let (build, _) = build.step(BuildEvent::StageCompiled {
        object: 2000 + program,
        compiled: true,
        log: String::new(),
    });
    let (build, _) = build.step(BuildEvent::ProgramLinked {
        program,
        linked: true,
        log: String::new(),
    });
    build.finish().unwrap().unwrap()
}

fn scalars() -> Scalars<f32> {
    Scalars::new(0.0, 1.0)
}

#[test]
fn rectangle_corners_run_clockwise_from_top_right() {
    let rectangle = Rectangle::new(
        linked(3),
        Vector2D::new(0.5f32, 0.5),
        Vector2D::new(-0.5, -0.5),
        &scalars(),
        BufferHandles::new(1, 2).unwrap(),
    );
    assert_eq!(
        rectangle.corners(),
        [
            Vector2D::new(0.5, 0.5),
            Vector2D::new(0.5, -0.5),
            Vector2D::new(-0.5, -0.5),
            Vector2D::new(-0.5, 0.5),
        ]
    );
    assert_eq!(
        rectangle.vertex_data(),
        vec![0.5, 0.5, 0.0, 0.5, -0.5, 0.0, -0.5, -0.5, 0.0, -0.5, 0.5, 0.0]
    );
}

#[test]
fn rectangle_uploads_then_draws_a_fan_of_four() {
    let rectangle = Rectangle::new(
        linked(3),
        Vector2D::new(0.5f32, -0.5),
        Vector2D::new(0.9, -0.9),
        &scalars(),
        BufferHandles::new(7, 8).unwrap(),
    );
    assert_eq!(
        rectangle.init(),
        vec![
            Command::BindVertexArray { array: 7 },
            Command::BindBuffer { buffer: 8 },
            Command::BufferData {
                data: vec![0.5, -0.5, 0.0, 0.5, -0.9, 0.0, 0.9, -0.9, 0.0, 0.9, -0.5, 0.0],
            },
            Command::VertexAttribPointer {
                attribute: VertexAttribute { index: 0, components: 3, stride: 3, offset: 0 },
            },
            Command::EnableVertexAttribArray { index: 0 },
            Command::BindBuffer { buffer: 0 },
            Command::BindVertexArray { array: 0 },
        ]
    );
    assert_eq!(
        rectangle.draw(),
        vec![
            Command::UseProgram { program: 3 },
            Command::BindVertexArray { array: 7 },
            Command::DrawArrays { mode: Primitive::TriangleFan, first: 0, count: 4 },
            Command::BindVertexArray { array: 0 },
        ]
    );
    assert_eq!(
        rectangle.release(),
        vec![
            Command::<f32>::DeleteVertexArray { array: 7 },
            Command::DeleteBuffer { buffer: 8 },
        ]
    );
}

#[test]
fn identity_matrix_has_ones_on_the_diagonal() {
    let m = Matrix4::identity(&scalars());
    assert_eq!(
        m.cells,
        [1.0, 0.0, 0.0, 0.0, 0.0, 1.0, 0.0, 0.0, 0.0, 0.0, 1.0, 0.0, 0.0, 0.0, 0.0, 1.0]
    );
}

#[test]
fn vectors_keep_their_components() {
    let v = Vector2D::new(1.5f32, -2.0);
    assert_eq!((v.x, v.y), (1.5, -2.0));
    let w = Vector3D::new(1.0f32, 2.0, 3.0);
    assert_eq!((w.x, w.y, w.z), (1.0, 2.0, 3.0));
    assert_eq!(Vector2D::zero(&scalars()), Vector2D::new(0.0, 0.0));
    assert_eq!(Vector3D::zero(&scalars()), Vector3D::new(0.0, 0.0, 0.0));
    assert_eq!(Vector3D::from_plane(&v, 7.0), Vector3D::new(1.5, -2.0, 7.0));
}

#[test]
fn buffer_handles_refuse_the_name_zero() {
    assert!(BufferHandles::new(0, 5).is_none());
    assert!(BufferHandles::new(5, 0).is_none());
    assert!(BufferHandles::new(0, 0).is_none());
    let handles = BufferHandles::new(4, 9).unwrap();
    assert_eq!(handles.vertex_array(), 4);
    assert_eq!(handles.vertex_buffer(), 9);
}

#[test]
fn triangle_interleaves_positions_and_normals() {
    let triangle = Triangle::new(
        linked(5),
        Vector2D::new(-0.5f32, 0.6),
        Vector2D::new(0.5, 0.6),
        Vector2D::new(0.0, 0.9),
        Vector2D::new(0.0, -1.0),
        &scalars(),
        BufferHandles::new(11, 12).unwrap(),
    );
    let data = vec![
        -0.5, 0.6, 0.0, 0.0, -1.0, 1.0, //
        0.5, 0.6, 0.0, 0.0, -1.0, 1.0, //
        0.0, 0.9, 0.0, 0.0, -1.0, 1.0,
    ];
    assert_eq!(triangle.vertex_data(), data);
    assert_eq!(
        triangle.init(),
        vec![
            Command::BindVertexArray { array: 11 },
            Command::BindBuffer { buffer: 12 },
            Command::BufferData { data },
            Command::VertexAttribPointer {
                attribute: VertexAttribute { index: 0, components: 3, stride: 6, offset: 0 },
            },
            Command::EnableVertexAttribArray { index: 0 },
            Command::VertexAttribPointer {
                attribute: VertexAttribute { index: 1, components: 3, stride: 6, offset: 3 },
            },
            Command::EnableVertexAttribArray { index: 1 },
            Command::BindBuffer { buffer: 0 },
            Command::BindVertexArray { array: 0 },
        ]
    );
    assert_eq!(
        triangle.draw(),
        vec![
            Command::UseProgram { program: 5 },
            Command::BindVertexArray { array: 11 },
            Command::DrawArrays { mode: Primitive::Triangles, first: 0, count: 3 },
            Command::BindVertexArray { array: 0 },
        ]
    );
    assert_eq!(triangle.program().id(), 5);
}
