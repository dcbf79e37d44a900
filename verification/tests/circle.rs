use shape_renderer::buffers::BufferHandles;
use shape_renderer::circle::{Circle, RingSample, MAX_SEGMENTS};
use shape_renderer::command::{Command, Primitive, VertexAttribute};
use shape_renderer::draw::Shape;
use shape_renderer::scalar::Scalars;
use shape_renderer::shader::{BuildEvent, Shader, ShaderBuild};
use shape_renderer::vector2d::Vector2D;

fn program(name: u32) -> Shader {
    let (build, _) = ShaderBuild::new();
    let (build, _) =
        build.step(BuildEvent::StageCompiled { object: 1, compiled: true, log: String::new() });
    let (build, _) =
        build.step(BuildEvent::StageCompiled { object: 2, compiled: true, log: String::new() });
    let (build, _) =
        build.step(BuildEvent::ProgramLinked { program: name, linked: true, log: String::new() });
    build.finish().unwrap().unwrap()
}

fn rim(center: (f32, f32), radius: f32, segments: usize) -> impl Fn(usize) -> RingSample<f32> {
    move |i: usize| {
        let theta = 2.0 * std::f32::consts::PI * i as f32 / segments as f32;
        RingSample {
            position: Vector2D::new(center.0 + radius * theta.cos(), center.1 + radius * theta.sin()),
            texture: Vector2D::new((theta.cos() + 1.0) / 2.0, (theta.sin() + 1.0) / 2.0),
        }
    }
}

#[test]
fn forty_segments_give_forty_one_samples_on_a_closed_ring() {
    let center = (0.75f32, 0.75f32);
    let radius = 0.2f32;
    let ring = Circle::generate_circle_vertices(40, &rim(center, radius, 40));
    assert_eq!(ring.len(), 41);
    let first = ring[0].position;
    let last = ring[40].position;
    assert!((first.x - last.x).abs() < 1e-6);
    assert!((first.y - last.y).abs() < 1e-6);
    for sample in &ring {
        let dx = sample.position.x - center.0;
        let dy = sample.position.y - center.1;
        assert!(((dx * dx + dy * dy).sqrt() - radius).abs() < 1e-6);
        assert!(0.0 <= sample.texture.x && sample.texture.x <= 1.0);
        assert!(0.0 <= sample.texture.y && sample.texture.y <= 1.0);
    }
}

#[test]
fn samples_are_taken_at_rising_indices_from_zero() {
    let sample = |i: usize| RingSample {
        position: Vector2D::new(i as f32, 10.0 * i as f32),
        texture: Vector2D::new(100.0 * i as f32, 1000.0 * i as f32),
    };
    let ring = Circle::generate_circle_vertices(3, &sample);
    assert_eq!(ring, vec![sample(0), sample(1), sample(2), sample(3)]);
}

#[test]
fn no_segments_give_one_sample() {
    let ring = Circle::generate_circle_vertices(0, &rim((0.0, 0.0), 1.0, 0));
    assert_eq!(ring.len(), 1);
}

#[test]
fn segment_limit_leaves_room_for_the_buffer() {
    assert_eq!(MAX_SEGMENTS, 858_993_458);
    assert!((MAX_SEGMENTS as u64 + 1) * 5 <= u32::MAX as u64);
    assert!(MAX_SEGMENTS as u64 + 1 <= i32::MAX as u64);
}

#[test]
fn circle_interleaves_positions_and_texture_coordinates() {
    let sample = |i: usize| RingSample {
        position: Vector2D::new(i as f32, 10.0 + i as f32),
        texture: Vector2D::new(20.0 + i as f32, 30.0 + i as f32),
    };
    let circle = Circle::new(
        program(9),
        2,
        &sample,
        &Scalars::new(0.0f32, 1.0),
        BufferHandles::new(21, 22).unwrap(),
    );
    assert_eq!(circle.num_vertices(), 3);
    let data = vec![
        0.0, 10.0, 0.0, 20.0, 30.0, //
        1.0, 11.0, 0.0, 21.0, 31.0, //
        2.0, 12.0, 0.0, 22.0, 32.0,
    ];
    assert_eq!(circle.vertex_data(), data);
    assert_eq!(
        circle.init(),
        vec![
            Command::BindVertexArray { array: 21 },
            Command::BindBuffer { buffer: 22 },
            Command::BufferData { data },
            Command::VertexAttribPointer {
                attribute: VertexAttribute { index: 0, components: 3, stride: 5, offset: 0 },
            },
            Command::EnableVertexAttribArray { index: 0 },
            Command::VertexAttribPointer {
                attribute: VertexAttribute { index: 1, components: 2, stride: 5, offset: 3 },
            },
            Command::EnableVertexAttribArray { index: 1 },
            Command::BindBuffer { buffer: 0 },
            Command::BindVertexArray { array: 0 },
        ]
    );
    assert_eq!(
        circle.draw(),
        vec![
            Command::UseProgram { program: 9 },
            Command::BindVertexArray { array: 21 },
            Command::DrawArrays { mode: Primitive::TriangleFan, first: 0, count: 3 },
            Command::BindVertexArray { array: 0 },
        ]
    );
}

#[test]
fn a_circle_of_forty_segments_draws_forty_one_vertices() {
    let circle = Circle::new(
        program(9),
        40,
        &rim((0.65, 0.65), 0.25, 40),
        &Scalars::new(0.0f32, 1.0),
        BufferHandles::new(1, 1).unwrap(),
    );
    assert_eq!(circle.num_vertices(), 41);
    assert_eq!(circle.vertex_data().len(), 41 * 5);
    match &circle.draw()[2] {
        Command::DrawArrays { mode, first, count } => {
            assert_eq!((*mode, *first, *count), (Primitive::TriangleFan, 0, 41));
        }
        other => panic!("unexpected command {:?}", other),
    }
}
