//! An axis-aligned rectangle in the plane.

use vstd::prelude::*;
use crate::buffers::{draw_arrays, draw_sequence, laid_out, release, upload, BufferHandles};
use crate::command::{Command, CommandView, Primitive, VertexAttribute};
use crate::draw::Shape;
use crate::scalar::Scalars;
use crate::shader::Shader;
use crate::vector2d::Vector2D;

verus! {

/// The four corners in fan order: top right, bottom right, bottom left, top
/// left. The two corners that were not given take one coordinate from each
/// of the two that were.
pub open spec fn rectangle_corners<T>(top_right: Vector2D<T>, bottom_left: Vector2D<T>) -> Seq<
    Vector2D<T>,
> {
    seq![
        top_right,
        Vector2D { x: top_right.x, y: bottom_left.y },
        bottom_left,
        Vector2D { x: bottom_left.x, y: top_right.y },
    ]
}

/// The corners as positions in space, three scalars each, all at height `z`.
pub open spec fn rectangle_vertices<T>(
    top_right: Vector2D<T>,
    bottom_left: Vector2D<T>,
    z: T,
) -> Seq<T> {
    let corners = rectangle_corners(top_right, bottom_left);
    Seq::new(
        12,
        |i: int|
            if i % 3 == 0 {
                corners[i / 3].x
            } else if i % 3 == 1 {
                corners[i / 3].y
            } else {
                z
            },
    )
}

/// One attribute: the position, three scalars, tightly packed.
pub open spec fn rectangle_layout() -> Seq<VertexAttribute> {
    seq![VertexAttribute { index: 0, components: 3, stride: 3, offset: 0 }]
}

/// A filled rectangle, drawn as a fan of two triangles.
#[derive(Debug)]
pub struct Rectangle<T> {
    buffers: BufferHandles,
    shader: Shader,
    top_right: Vector2D<T>,
    bottom_left: Vector2D<T>,
    plane: T,
}

impl<T: Copy> Rectangle<T> {
    pub closed spec fn top_right(&self) -> Vector2D<T> {
        self.top_right
    }

    pub closed spec fn bottom_left(&self) -> Vector2D<T> {
        self.bottom_left
    }

    /// The height at which the rectangle lies.
    pub closed spec fn plane(&self) -> T {
        self.plane
    }

    /// A rectangle between two opposite corners, at height zero, drawn by
    /// `shader` from the GPU objects `buffers`.
    pub fn new(
        shader: Shader,
        top_right: Vector2D<T>,
        bottom_left: Vector2D<T>,
        scalars: &Scalars<T>,
        buffers: BufferHandles,
    ) -> (rectangle: Self)
        ensures
            rectangle.buffers() == buffers,
            rectangle.shader() == shader,
            rectangle.top_right() == top_right,
            rectangle.bottom_left() == bottom_left,
            rectangle.plane() == scalars.zero,
    {
        Rectangle { buffers, shader, top_right, bottom_left, plane: scalars.zero }
    }

    /// The four corners in the order in which they are drawn.
    pub fn corners(&self) -> (corners: [Vector2D<T>; 4])
        ensures
            corners@ == rectangle_corners(self.top_right(), self.bottom_left()),
    {
        let corners = [
            self.top_right,
            Vector2D { x: self.top_right.x, y: self.bottom_left.y },
            self.bottom_left,
            Vector2D { x: self.bottom_left.x, y: self.top_right.y },
        ];
        assert(corners@ =~= rectangle_corners(self.top_right, self.bottom_left));
        corners
    }

    /// The scalars that go into the vertex buffer.
    pub fn vertex_data(&self) -> (data: Vec<T>)
        ensures
            data@ == self.payload(),
    {
        let corners = self.corners();
        let mut data: Vec<T> = Vec::new();
        let mut i: usize = 0;
        while i < 4
            invariant
                i <= 4,
                corners@ == rectangle_corners(self.top_right, self.bottom_left),
                data@ =~= rectangle_vertices(self.top_right, self.bottom_left, self.plane).take(
                    3 * i,
                ),
            decreases 4 - i,
        {
            data.push(corners[i].x);
            data.push(corners[i].y);
            data.push(self.plane);
            i += 1;
        }
        data
    }
}

/// The layout fits the data: four vertices of three scalars.
pub proof fn lemma_rectangle_layout<T: Copy>(rectangle: Rectangle<T>)
    ensures
        laid_out(rectangle.payload().len(), rectangle.layout(), 4),
{
}

impl<T: Copy> Shape<T> for Rectangle<T> {
    closed spec fn buffers(&self) -> BufferHandles {
        self.buffers
    }

    closed spec fn shader(&self) -> Shader {
        self.shader
    }

    open spec fn payload(&self) -> Seq<T> {
        rectangle_vertices(self.top_right(), self.bottom_left(), self.plane())
    }

    open spec fn layout(&self) -> Seq<VertexAttribute> {
        rectangle_layout()
    }

    open spec fn draw_commands(&self) -> Seq<CommandView<T>> {
        draw_sequence::<T>(
            self.shader().program(),
            self.buffers().array(),
            Primitive::TriangleFan,
            4,
        )
    }

    fn handles(&self) -> (handles: &BufferHandles) {
        &self.buffers
    }

    fn program(&self) -> (shader: Shader) {
        self.shader
    }

    fn init(&self) -> (commands: Vec<Command<T>>) {
        let mut attributes: Vec<VertexAttribute> = Vec::new();
        attributes.push(VertexAttribute { index: 0, components: 3, stride: 3, offset: 0 });
        assert(attributes@ =~= rectangle_layout());
        upload(&self.buffers, self.vertex_data(), &attributes)
    }

    fn draw(&self) -> (commands: Vec<Command<T>>) {
        draw_arrays(self.shader.id(), &self.buffers, Primitive::TriangleFan, 4)
    }

    fn release(self) -> (commands: Vec<Command<T>>) {
        release(self.buffers)
    }
}

} // verus!
