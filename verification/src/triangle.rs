//! A triangle in the plane, with one normal for its face.

use vstd::prelude::*;
use crate::buffers::{draw_arrays, draw_sequence, laid_out, release, upload, BufferHandles};
use crate::command::{Command, CommandView, Primitive, VertexAttribute};
use crate::draw::Shape;
use crate::scalar::Scalars;
use crate::shader::Shader;
use crate::vector2d::Vector2D;

verus! {

/// Six scalars for each of the three corners: the position at height
/// `scalars.zero`, then the corner's normal with `scalars.one` as its third
/// component.
pub open spec fn triangle_vertices<T>(
    corners: Seq<Vector2D<T>>,
    normals: Seq<Vector2D<T>>,
    scalars: Scalars<T>,
) -> Seq<T> {
    Seq::new(
        18,
        |i: int|
            if i % 6 == 0 {
                corners[i / 6].x
            } else if i % 6 == 1 {
                corners[i / 6].y
            } else if i % 6 == 2 {
                scalars.zero
            } else if i % 6 == 3 {
                normals[i / 6].x
            } else if i % 6 == 4 {
                normals[i / 6].y
            } else {
                scalars.one
            },
    )
}

/// Two attributes in one buffer: the position first, the normal behind it.
pub open spec fn triangle_layout() -> Seq<VertexAttribute> {
    seq![
        VertexAttribute { index: 0, components: 3, stride: 6, offset: 0 },
        VertexAttribute { index: 1, components: 3, stride: 6, offset: 3 },
    ]
}

/// A filled triangle.
#[derive(Debug)]
pub struct Triangle<T> {
    buffers: BufferHandles,
    shader: Shader,
    vertices: [Vector2D<T>; 3],
    normals: [Vector2D<T>; 3],
    scalars: Scalars<T>,
}

impl<T: Copy> Triangle<T> {
    /// The three corners, in the order in which they were given.
    pub closed spec fn corners(&self) -> Seq<Vector2D<T>> {
        self.vertices@
    }

    /// The normal of each corner.
    pub closed spec fn corner_normals(&self) -> Seq<Vector2D<T>> {
        self.normals@
    }

    /// The two constants that fill the third component of each position
    /// and of each normal.
    pub closed spec fn scalars(&self) -> Scalars<T> {
        self.scalars
    }

    /// A triangle with corners `v1`, `v2`, `v3`, drawn by `shader` from the
    /// GPU objects `buffers`.
    ///
    /// `normal` is the normal of the face: the unit vector perpendicular to
    /// the edge from `v1` to `v2`, which the caller computes in its own
    /// arithmetic. It is stored once for each corner.
    pub fn new(
        shader: Shader,
        v1: Vector2D<T>,
        v2: Vector2D<T>,
        v3: Vector2D<T>,
        normal: Vector2D<T>,
        scalars: &Scalars<T>,
        buffers: BufferHandles,
    ) -> (triangle: Self)
        ensures
            triangle.buffers() == buffers,
            triangle.shader() == shader,
            triangle.corners() == seq![v1, v2, v3],
            triangle.corner_normals() == seq![normal, normal, normal],
            triangle.scalars() == *scalars,
    {
        let triangle = Triangle {
            buffers,
            shader,
            vertices: [v1, v2, v3],
            normals: [normal, normal, normal],
            scalars: *scalars,
        };
        proof {
            assert(triangle.vertices@ =~= seq![v1, v2, v3]);
            assert(triangle.normals@ =~= seq![normal, normal, normal]);
        }
        triangle
    }

    /// The scalars that go into the vertex buffer: position and normal of
    /// each corner in turn.
    pub fn vertex_data(&self) -> (data: Vec<T>)
        ensures
            data@ == self.payload(),
    {
        let mut data: Vec<T> = Vec::new();
        let mut i: usize = 0;
        while i < 3
            invariant
                i <= 3,
                data@ =~= self.payload().take(6 * i),
            decreases 3 - i,
        {
            data.push(self.vertices[i].x);
            data.push(self.vertices[i].y);
            data.push(self.scalars.zero);
            data.push(self.normals[i].x);
            data.push(self.normals[i].y);
            data.push(self.scalars.one);
            i += 1;
        }
        data
    }
}

/// The layout fits the data: three vertices of six scalars, the position in
/// the first three and the normal in the last three.
pub proof fn lemma_triangle_layout<T: Copy>(triangle: Triangle<T>)
    ensures
        laid_out(triangle.payload().len(), triangle.layout(), 3),
{
}

impl<T: Copy> Shape<T> for Triangle<T> {
    closed spec fn buffers(&self) -> BufferHandles {
        self.buffers
    }

    closed spec fn shader(&self) -> Shader {
        self.shader
    }

    open spec fn payload(&self) -> Seq<T> {
        triangle_vertices(self.corners(), self.corner_normals(), self.scalars())
    }

    open spec fn layout(&self) -> Seq<VertexAttribute> {
        triangle_layout()
    }

    open spec fn draw_commands(&self) -> Seq<CommandView<T>> {
        draw_sequence::<T>(self.shader().program(), self.buffers().array(), Primitive::Triangles, 3)
    }

    fn handles(&self) -> (handles: &BufferHandles) {
        &self.buffers
    }

    fn program(&self) -> (shader: Shader) {
        self.shader
    }

    fn init(&self) -> (commands: Vec<Command<T>>) {
        let mut attributes: Vec<VertexAttribute> = Vec::new();
        attributes.push(VertexAttribute { index: 0, components: 3, stride: 6, offset: 0 });
        attributes.push(VertexAttribute { index: 1, components: 3, stride: 6, offset: 3 });
        assert(attributes@ =~= triangle_layout());
        upload(&self.buffers, self.vertex_data(), &attributes)
    }

    fn draw(&self) -> (commands: Vec<Command<T>>) {
        draw_arrays(self.shader.id(), &self.buffers, Primitive::Triangles, 3)
    }

    fn release(self) -> (commands: Vec<Command<T>>) {
        release(self.buffers)
    }
}

} // verus!
