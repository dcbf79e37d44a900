//! A circle, approximated by a fan over points on its rim.

use vstd::prelude::*;
use crate::buffers::{draw_arrays, draw_sequence, laid_out, release, upload, BufferHandles};
use crate::command::{Command, CommandView, Primitive, VertexAttribute};
use crate::draw::Shape;
use crate::scalar::Scalars;
use crate::shader::Shader;
use crate::vector2d::Vector2D;

verus! {

/// One point on the rim: where it lies, and where it lies in the texture.
#[derive(Clone, Copy, Debug, PartialEq)]
pub struct RingSample<T> {
    pub position: Vector2D<T>,
    pub texture: Vector2D<T>,
}

/// The largest number of segments a circle can have: with one more sample
/// than segments and five scalars per sample, the buffer's length still fits
/// a 32-bit size, and the number of vertices a signed 32-bit count.
pub const MAX_SEGMENTS: usize = 0x3333_3332;

/// Five scalars for each sample of the rim: the position at height `z`,
/// then the texture coordinate.
pub open spec fn circle_vertices<T>(ring: Seq<RingSample<T>>, z: T) -> Seq<T> {
    Seq::new(
        5 * ring.len(),
        |i: int|
            if i % 5 == 0 {
                ring[i / 5].position.x
            } else if i % 5 == 1 {
                ring[i / 5].position.y
            } else if i % 5 == 2 {
                z
            } else if i % 5 == 3 {
                ring[i / 5].texture.x
            } else {
                ring[i / 5].texture.y
            },
    )
}

/// Two attributes in one buffer: the position first, the texture coordinate
/// behind it.
pub open spec fn circle_layout() -> Seq<VertexAttribute> {
    seq![
        VertexAttribute { index: 0, components: 3, stride: 5, offset: 0 },
        VertexAttribute { index: 1, components: 2, stride: 5, offset: 3 },
    ]
}

/// A filled regular polygon that stands for a disk.
///
/// The fan has no vertex at the centre. Its first rim point is the hub, and
/// the rim is closed by sampling the full turn once more at the end, so a
/// circle of `n` segments has `n + 1` vertices, the first and the last at the
/// same angle.
#[derive(Debug)]
pub struct Circle<T> {
    buffers: BufferHandles,
    shader: Shader,
    ring: Vec<RingSample<T>>,
    plane: T,
}

impl<T> Circle<T> {
    #[verifier::type_invariant]
    spec fn bounded(self) -> bool {
        1 <= self.ring@.len() <= MAX_SEGMENTS + 1
    }
}

impl<T: Copy> Circle<T> {
    /// The samples of the rim, in drawing order.
    pub closed spec fn ring(&self) -> Seq<RingSample<T>> {
        self.ring@
    }

    /// The height at which the circle lies.
    pub closed spec fn plane(&self) -> T {
        self.plane
    }

    /// Samples the rim at the angles `0, 1, .., segments` times the
    /// `segments`-th part of a full turn: `sample(i)` is asked for each `i`
    /// from 0 to `segments`, both included, in rising order.
    pub fn generate_circle_vertices<F: Fn(usize) -> RingSample<T>>(
        num_segments: usize,
        sample: &F,
    ) -> (ring: Vec<RingSample<T>>)
        requires
            num_segments <= MAX_SEGMENTS,
            forall|i: usize| i <= num_segments ==> call_requires(sample, (i,)),
        ensures
            ring@.len() == num_segments + 1,
            forall|i: int|
                0 <= i <= num_segments ==> call_ensures(sample, (i as usize,), #[trigger] ring@[i]),
    {
        let mut ring: Vec<RingSample<T>> = Vec::new();
        let mut i: usize = 0;
        while i <= num_segments
            invariant
                i <= num_segments + 1,
                num_segments <= MAX_SEGMENTS,
                ring@.len() == i,
                forall|k: usize| k <= num_segments ==> call_requires(sample, (k,)),
                forall|k: int| 0 <= k < i ==> call_ensures(sample, (k as usize,), #[trigger] ring@[k]),
            decreases num_segments + 1 - i,
        {
            let point = sample(i);
            ring.push(point);
            i += 1;
        }
        ring
    }

    /// A circle of `num_segments` segments whose rim is given by `sample`,
    /// at height zero, drawn by `shader` from the GPU objects `buffers`.
    ///
    /// `sample(i)` is the point at `i` times the `num_segments`-th part of a
    /// full turn. The caller computes it in its own arithmetic.
    pub fn new<F: Fn(usize) -> RingSample<T>>(
        shader: Shader,
        num_segments: usize,
        sample: &F,
        scalars: &Scalars<T>,
        buffers: BufferHandles,
    ) -> (circle: Self)
        requires
            num_segments <= MAX_SEGMENTS,
            forall|i: usize| i <= num_segments ==> call_requires(sample, (i,)),
        ensures
            circle.buffers() == buffers,
            circle.shader() == shader,
            circle.plane() == scalars.zero,
            circle.ring().len() == num_segments + 1,
            forall|i: int|
                0 <= i <= num_segments ==> call_ensures(
                    sample,
                    (i as usize,),
                    #[trigger] circle.ring()[i],
                ),
    {
        let ring = Self::generate_circle_vertices(num_segments, sample);
        Circle { buffers, shader, ring, plane: scalars.zero }
    }

    /// How many vertices one draw sends: one more than there are segments.
    pub fn num_vertices(&self) -> (count: i32)
        ensures
            count == self.ring().len(),
            count >= 1,
    {
        proof {
            use_type_invariant(self);
        }
        self.ring.len() as i32
    }

    /// The scalars that go into the vertex buffer: position and texture
    /// coordinate of each sample in turn.
    pub fn vertex_data(&self) -> (data: Vec<T>)
        ensures
            data@ == self.payload(),
    {
        proof {
            use_type_invariant(self);
        }
        let mut data: Vec<T> = Vec::new();
        let mut i: usize = 0;
        while i < self.ring.len()
            invariant
                i <= self.ring@.len(),
                self.ring@.len() <= MAX_SEGMENTS + 1,
                data@ =~= circle_vertices(self.ring@, self.plane).take(5 * i),
            decreases self.ring@.len() - i,
        {
            let point = self.ring[i];
            data.push(point.position.x);
            data.push(point.position.y);
            data.push(self.plane);
            data.push(point.texture.x);
            data.push(point.texture.y);
            i += 1;
        }
        data
    }
}

/// The layout fits the data: one vertex of five scalars for each sample of
/// the rim, the position in the first three and the texture coordinate in
/// the last two.
pub proof fn lemma_circle_layout<T: Copy>(circle: Circle<T>)
    ensures
        laid_out(circle.payload().len(), circle.layout(), circle.ring().len()),
{
}

impl<T: Copy> Shape<T> for Circle<T> {
    closed spec fn buffers(&self) -> BufferHandles {
        self.buffers
    }

    closed spec fn shader(&self) -> Shader {
        self.shader
    }

    open spec fn payload(&self) -> Seq<T> {
        circle_vertices(self.ring(), self.plane())
    }

    open spec fn layout(&self) -> Seq<VertexAttribute> {
        circle_layout()
    }

    open spec fn draw_commands(&self) -> Seq<CommandView<T>> {
        draw_sequence::<T>(
            self.shader().program(),
            self.buffers().array(),
            Primitive::TriangleFan,
            self.ring().len() as i32,
        )
    }

    fn handles(&self) -> (handles: &BufferHandles) {
        &self.buffers
    }

    fn program(&self) -> (shader: Shader) {
        self.shader
    }

    fn init(&self) -> (commands: Vec<Command<T>>) {
        let mut attributes: Vec<VertexAttribute> = Vec::new();
        attributes.push(VertexAttribute { index: 0, components: 3, stride: 5, offset: 0 });
        attributes.push(VertexAttribute { index: 1, components: 2, stride: 5, offset: 3 });
        assert(attributes@ =~= circle_layout());
        upload(&self.buffers, self.vertex_data(), &attributes)
    }

    fn draw(&self) -> (commands: Vec<Command<T>>) {
        draw_arrays(self.shader.id(), &self.buffers, Primitive::TriangleFan, self.num_vertices())
    }

    fn release(self) -> (commands: Vec<Command<T>>) {
        release(self.buffers)
    }
}

} // verus!
