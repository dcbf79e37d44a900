//! An axis-aligned box that turns.

use vstd::prelude::*;
use crate::buffers::{laid_out, release, upload, BufferHandles};
use crate::command::{identity_cell, views, Command, CommandView, Matrix4, Primitive, VertexAttribute};
use crate::draw::Shape;
use crate::scalar::Scalars;
use crate::shader::{Shader, UniformLocation};
use crate::vector3d::Vector3D;

verus! {

/// The three scalars of one position.
pub open spec fn corner<T>(v: Vector3D<T>) -> Seq<T> {
    seq![v.x, v.y, v.z]
}

/// The two triangles that fill the quad `q0 q1 q2 q3`: first `q0 q1 q2`,
/// then `q2 q3 q0`.
pub open spec fn quad_vertices<T>(
    q0: Vector3D<T>,
    q1: Vector3D<T>,
    q2: Vector3D<T>,
    q3: Vector3D<T>,
) -> Seq<T> {
    corner(q0) + corner(q1) + corner(q2) + corner(q2) + corner(q3) + corner(q0)
}

/// The four corners of one face of the box between `blb` (bottom left back)
/// and `trf` (top right front), in the order in which the face is wound.
/// The faces are numbered: front, back, left, right, top, bottom.
pub open spec fn cube_face<T>(blb: Vector3D<T>, trf: Vector3D<T>, face: int) -> (
    Vector3D<T>,
    Vector3D<T>,
    Vector3D<T>,
    Vector3D<T>,
) {
    if face == 0 {
        (
            Vector3D { x: blb.x, y: blb.y, z: trf.z },
            Vector3D { x: trf.x, y: blb.y, z: trf.z },
            Vector3D { x: trf.x, y: trf.y, z: trf.z },
            Vector3D { x: blb.x, y: trf.y, z: trf.z },
        )
    } else if face == 1 {
        (
            Vector3D { x: trf.x, y: blb.y, z: blb.z },
            Vector3D { x: blb.x, y: blb.y, z: blb.z },
            Vector3D { x: blb.x, y: trf.y, z: blb.z },
            Vector3D { x: trf.x, y: trf.y, z: blb.z },
        )
    } else if face == 2 {
        (
            Vector3D { x: blb.x, y: trf.y, z: trf.z },
            Vector3D { x: blb.x, y: trf.y, z: blb.z },
            Vector3D { x: blb.x, y: blb.y, z: blb.z },
            Vector3D { x: blb.x, y: blb.y, z: trf.z },
        )
    } else if face == 3 {
        (
            Vector3D { x: trf.x, y: trf.y, z: trf.z },
            Vector3D { x: trf.x, y: trf.y, z: blb.z },
            Vector3D { x: trf.x, y: blb.y, z: blb.z },
            Vector3D { x: trf.x, y: blb.y, z: trf.z },
        )
    } else if face == 4 {
        (
            Vector3D { x: blb.x, y: trf.y, z: blb.z },
            Vector3D { x: trf.x, y: trf.y, z: blb.z },
            Vector3D { x: trf.x, y: trf.y, z: trf.z },
            Vector3D { x: blb.x, y: trf.y, z: trf.z },
        )
    } else {
        (
            Vector3D { x: blb.x, y: blb.y, z: blb.z },
            Vector3D { x: trf.x, y: blb.y, z: blb.z },
            Vector3D { x: trf.x, y: blb.y, z: trf.z },
            Vector3D { x: blb.x, y: blb.y, z: trf.z },
        )
    }
}

/// The scalars of one face: its two triangles.
pub open spec fn face_vertices<T>(blb: Vector3D<T>, trf: Vector3D<T>, face: int) -> Seq<T> {
    let q = cube_face(blb, trf, face);
    quad_vertices(q.0, q.1, q.2, q.3)
}

/// The 108 scalars of the box: six faces, two triangles each, three
/// positions each, three scalars each. No position is shared.
pub open spec fn cube_vertices<T>(blb: Vector3D<T>, trf: Vector3D<T>) -> Seq<T> {
    face_vertices(blb, trf, 0) + face_vertices(blb, trf, 1) + face_vertices(blb, trf, 2)
        + face_vertices(blb, trf, 3) + face_vertices(blb, trf, 4) + face_vertices(blb, trf, 5)
}

/// The axis along which face `face` is flat: 0 for x, 1 for y, 2 for z.
pub open spec fn face_axis(face: int) -> int {
    if face < 2 {
        2
    } else if face < 4 {
        0
    } else {
        1
    }
}

/// The coordinate on `axis` of the position `v`.
pub open spec fn coordinate<T>(v: Vector3D<T>, axis: int) -> T {
    if axis == 0 {
        v.x
    } else if axis == 1 {
        v.y
    } else {
        v.z
    }
}

/// The value that every position of face `face` has on the face's axis.
pub open spec fn face_level<T>(blb: Vector3D<T>, trf: Vector3D<T>, face: int) -> T {
    if face == 0 || face == 3 || face == 4 {
        coordinate(trf, face_axis(face))
    } else {
        coordinate(blb, face_axis(face))
    }
}

/// One attribute: the position, three scalars, tightly packed.
pub open spec fn cube_layout() -> Seq<VertexAttribute> {
    seq![VertexAttribute { index: 0, components: 3, stride: 3, offset: 0 }]
}

/// What one draw of a cube asks for: activate the program, store the
/// rotation if the program has a place for it, then bind, draw the 36
/// vertices as triangles, and unbind.
pub open spec fn cube_draw_sequence<T>(
    program: u32,
    array: u32,
    location: UniformLocation,
    transform: Seq<T>,
) -> Seq<CommandView<T>> {
    let upload = if location.present() {
        seq![CommandView::UniformMatrix4 { location: location.slot, matrix: transform }]
    } else {
        Seq::empty()
    };
    seq![CommandView::UseProgram { program }] + upload + seq![
        CommandView::BindVertexArray { array },
        CommandView::DrawArrays { mode: Primitive::Triangles, first: 0, count: 36 },
        CommandView::BindVertexArray { array: 0 },
    ]
}

/// The geometry of a box obeys its corners: there are 36 positions; each
/// coordinate of each position is that of one of the two corners on the same
/// axis; and the six positions of each face all lie in the face's plane.
pub proof fn lemma_cube_geometry<T>(blb: Vector3D<T>, trf: Vector3D<T>)
    ensures
        cube_vertices(blb, trf).len() == 3 * 36,
        forall|face: int| 0 <= face < 6 ==> #[trigger] face_vertices(blb, trf, face).len() == 3 * 6,
        forall|face: int|
            0 <= face < 6 ==> cube_vertices(blb, trf).subrange(18 * face, 18 * face + 18)
                == #[trigger] face_vertices(blb, trf, face),
        forall|v: int, axis: int|
            #![trigger cube_vertices(blb, trf)[3 * v + axis]]
            0 <= v < 36 && 0 <= axis < 3 ==> cube_vertices(blb, trf)[3 * v + axis] == coordinate(
                blb,
                axis,
            ) || cube_vertices(blb, trf)[3 * v + axis] == coordinate(trf, axis),
        forall|face: int, v: int|
            #![trigger face_vertices(blb, trf, face)[3 * v + face_axis(face)]]
            0 <= face < 6 && 0 <= v < 6 ==> face_vertices(blb, trf, face)[3 * v + face_axis(face)]
                == face_level(blb, trf, face),
{
    let all = cube_vertices(blb, trf);
    assert forall|face: int| 0 <= face < 6 implies all.subrange(18 * face, 18 * face + 18)
        == #[trigger] face_vertices(blb, trf, face) by {
        assert(all.subrange(18 * face, 18 * face + 18) =~= face_vertices(blb, trf, face));
    }
    assert forall|face: int, v: int|
        #![trigger face_vertices(blb, trf, face)[3 * v + face_axis(face)]]
        0 <= face < 6 && 0 <= v < 6 implies face_vertices(blb, trf, face)[3 * v + face_axis(face)]
        == face_level(blb, trf, face) by {
        lemma_face_plane(blb, trf, face, v);
    }
    assert forall|v: int, axis: int|
        #![trigger cube_vertices(blb, trf)[3 * v + axis]]
        0 <= v < 36 && 0 <= axis < 3 implies all[3 * v + axis] == coordinate(blb, axis) || all[3 * v
        + axis] == coordinate(trf, axis) by {
        let face = v / 6;
        let w = v % 6;
        assert(all.subrange(18 * face, 18 * face + 18) == face_vertices(blb, trf, face));
        assert(all[3 * v + axis] == all.subrange(18 * face, 18 * face + 18)[3 * w + axis]);
        lemma_face_corners(blb, trf, face, w, axis);
    }
}

proof fn lemma_face_plane<T>(blb: Vector3D<T>, trf: Vector3D<T>, face: int, v: int)
    requires
        0 <= face < 6,
        0 <= v < 6,
    ensures
        face_vertices(blb, trf, face)[3 * v + face_axis(face)] == face_level(blb, trf, face),
{
}

proof fn lemma_face_corners<T>(blb: Vector3D<T>, trf: Vector3D<T>, face: int, v: int, axis: int)
    requires
        0 <= face < 6,
        0 <= v < 6,
        0 <= axis < 3,
    ensures
        face_vertices(blb, trf, face)[3 * v + axis] == coordinate(blb, axis) || face_vertices(
            blb,
            trf,
            face,
        )[3 * v + axis] == coordinate(trf, axis),
{
}

/// A box between two opposite corners, with the angle by which it has turned.
#[derive(Debug)]
pub struct Cube<T> {
    buffers: BufferHandles,
    shader: Shader,
    rotation: T,
    transform: Matrix4<T>,
    location: UniformLocation,
    bottom_left_back: Vector3D<T>,
    top_right_front: Vector3D<T>,
}

/// The name of the uniform in which a cube's program takes the rotation.
pub fn rotation_uniform() -> (name: &'static str)
    ensures
        name@ == "rotation"@,
{
    "rotation"
}

fn push_corner<T: Copy>(data: &mut Vec<T>, v: Vector3D<T>)
    ensures
        final(data)@ == old(data)@ + corner(v),
{
    data.push(v.x);
    data.push(v.y);
    data.push(v.z);
    assert(data@ =~= old(data)@ + corner(v));
}

fn push_quad<T: Copy>(
    data: &mut Vec<T>,
    q0: Vector3D<T>,
    q1: Vector3D<T>,
    q2: Vector3D<T>,
    q3: Vector3D<T>,
)
    ensures
        final(data)@ == old(data)@ + quad_vertices(q0, q1, q2, q3),
{
    push_corner(data, q0);
    push_corner(data, q1);
    push_corner(data, q2);
    push_corner(data, q2);
    push_corner(data, q3);
    push_corner(data, q0);
    assert(data@ =~= old(data)@ + quad_vertices(q0, q1, q2, q3));
}

impl<T: Copy> Cube<T> {
    pub closed spec fn bottom_left_back(&self) -> Vector3D<T> {
        self.bottom_left_back
    }

    pub closed spec fn top_right_front(&self) -> Vector3D<T> {
        self.top_right_front
    }

    /// The angle by which the cube has turned.
    pub closed spec fn angle(&self) -> T {
        self.rotation
    }

    /// The rotation matrix that belongs to the angle.
    pub closed spec fn transform(&self) -> Matrix4<T> {
        self.transform
    }

    /// Where the cube's program takes the rotation matrix.
    pub closed spec fn location(&self) -> UniformLocation {
        self.location
    }

    /// This cube, turned to `angle` with the rotation matrix `transform`.
    /// Nothing else differs.
    pub closed spec fn turned(&self, angle: T, transform: Matrix4<T>) -> Cube<T> {
        Cube {
            buffers: self.buffers,
            shader: self.shader,
            rotation: angle,
            transform,
            location: self.location,
            bottom_left_back: self.bottom_left_back,
            top_right_front: self.top_right_front,
        }
    }

    /// Turning a cube changes its angle and its matrix, and with them what
    /// a draw stores in the program; the geometry, the program and the GPU
    /// objects stay as they are.
    pub proof fn lemma_turned(&self, angle: T, transform: Matrix4<T>)
        ensures
            self.turned(angle, transform).angle() == angle,
            self.turned(angle, transform).transform() == transform,
            self.turned(angle, transform).buffers() == self.buffers(),
            self.turned(angle, transform).shader() == self.shader(),
            self.turned(angle, transform).location() == self.location(),
            self.turned(angle, transform).bottom_left_back() == self.bottom_left_back(),
            self.turned(angle, transform).top_right_front() == self.top_right_front(),
    {
    }

    /// A box between `bottom_left_back` and `top_right_front`, drawn by
    /// `shader` from the GPU objects `buffers`. It has not turned yet: its
    /// angle is zero and its rotation matrix is the identity.
    ///
    /// `location` is where `shader` keeps the uniform named by
    /// [`rotation_uniform`].
    pub fn new(
        shader: Shader,
        bottom_left_back: Vector3D<T>,
        top_right_front: Vector3D<T>,
        scalars: &Scalars<T>,
        location: UniformLocation,
        buffers: BufferHandles,
    ) -> (cube: Self)
        ensures
            cube.buffers() == buffers,
            cube.shader() == shader,
            cube.bottom_left_back() == bottom_left_back,
            cube.top_right_front() == top_right_front,
            cube.location() == location,
            cube.angle() == scalars.zero,
            forall|i: int| 0 <= i < 16 ==> cube.transform().cells@[i] == identity_cell(*scalars, i),
    {
        Cube {
            buffers,
            shader,
            rotation: scalars.zero,
            transform: Matrix4::identity(scalars),
            location,
            bottom_left_back,
            top_right_front,
        }
    }

    pub fn rotation(&self) -> (angle: T)
        ensures
            angle == self.angle(),
    {
        self.rotation
    }

    /// The rotation matrix that the next draw stores in the program.
    pub fn matrix(&self) -> (transform: Matrix4<T>)
        ensures
            transform == self.transform(),
    {
        self.transform
    }

    /// Turns the cube to `angle`, whose rotation matrix is `transform`. The
    /// geometry, the program and the GPU objects stay as they are.
    pub fn set_rotation(&mut self, angle: T, transform: Matrix4<T>)
        ensures
            *final(self) == old(self).turned(angle, transform),
            final(self).angle() == angle,
            final(self).transform() == transform,
            final(self).buffers() == old(self).buffers(),
            final(self).shader() == old(self).shader(),
            final(self).location() == old(self).location(),
            final(self).bottom_left_back() == old(self).bottom_left_back(),
            final(self).top_right_front() == old(self).top_right_front(),
    {
        self.rotation = angle;
        self.transform = transform;
    }

    /// The positions of the 36 vertices, face by face.
    pub fn generate_vertices(&self) -> (data: Vec<T>)
        ensures
            data@ == self.payload(),
            data@.len() == 108,
    {
        let blb = self.bottom_left_back;
        let trf = self.top_right_front;
        let mut data: Vec<T> = Vec::new();
        push_quad(
            &mut data,
            Vector3D { x: blb.x, y: blb.y, z: trf.z },
            Vector3D { x: trf.x, y: blb.y, z: trf.z },
            Vector3D { x: trf.x, y: trf.y, z: trf.z },
            Vector3D { x: blb.x, y: trf.y, z: trf.z },
        );
        push_quad(
            &mut data,
            Vector3D { x: trf.x, y: blb.y, z: blb.z },
            Vector3D { x: blb.x, y: blb.y, z: blb.z },
            Vector3D { x: blb.x, y: trf.y, z: blb.z },
            Vector3D { x: trf.x, y: trf.y, z: blb.z },
        );
        push_quad(
            &mut data,
            Vector3D { x: blb.x, y: trf.y, z: trf.z },
            Vector3D { x: blb.x, y: trf.y, z: blb.z },
            Vector3D { x: blb.x, y: blb.y, z: blb.z },
            Vector3D { x: blb.x, y: blb.y, z: trf.z },
        );
        push_quad(
            &mut data,
            Vector3D { x: trf.x, y: trf.y, z: trf.z },
            Vector3D { x: trf.x, y: trf.y, z: blb.z },
            Vector3D { x: trf.x, y: blb.y, z: blb.z },
            Vector3D { x: trf.x, y: blb.y, z: trf.z },
        );
        push_quad(
            &mut data,
            Vector3D { x: blb.x, y: trf.y, z: blb.z },
            Vector3D { x: trf.x, y: trf.y, z: blb.z },
            Vector3D { x: trf.x, y: trf.y, z: trf.z },
            Vector3D { x: blb.x, y: trf.y, z: trf.z },
        );
        push_quad(
            &mut data,
            Vector3D { x: blb.x, y: blb.y, z: blb.z },
            Vector3D { x: trf.x, y: blb.y, z: blb.z },
            Vector3D { x: trf.x, y: blb.y, z: trf.z },
            Vector3D { x: blb.x, y: blb.y, z: trf.z },
        );
        proof {
            assert(data@ =~= cube_vertices(blb, trf));
        }
        data
    }
}

/// The layout fits the data: 36 vertices of three scalars.
pub proof fn lemma_cube_layout<T: Copy>(cube: Cube<T>)
    ensures
        laid_out(cube.payload().len(), cube.layout(), 36),
{
    lemma_cube_geometry(cube.bottom_left_back(), cube.top_right_front());
}

impl<T: Copy> Shape<T> for Cube<T> {
    closed spec fn buffers(&self) -> BufferHandles {
        self.buffers
    }

    closed spec fn shader(&self) -> Shader {
        self.shader
    }

    open spec fn payload(&self) -> Seq<T> {
        cube_vertices(self.bottom_left_back(), self.top_right_front())
    }

    open spec fn layout(&self) -> Seq<VertexAttribute> {
        cube_layout()
    }

    open spec fn draw_commands(&self) -> Seq<CommandView<T>> {
        cube_draw_sequence(
            self.shader().program(),
            self.buffers().array(),
            self.location(),
            self.transform().cells@,
        )
    }

    fn handles(&self) -> (handles: &BufferHandles) {
        &self.buffers
    }

    fn program(&self) -> (shader: Shader) {
        self.shader
    }

    fn init(&self) -> (commands: Vec<Command<T>>) {
        let mut attributes: Vec<VertexAttribute> = Vec::new();
        attributes.push(VertexAttribute { index: 0, components: 3, stride: 3, offset: 0 });
        assert(attributes@ =~= cube_layout());
        upload(&self.buffers, self.generate_vertices(), &attributes)
    }

    fn draw(&self) -> (commands: Vec<Command<T>>) {
        let mut commands: Vec<Command<T>> = Vec::new();
        commands.push(self.shader.use_program());
        if self.location.is_present() {
            commands.push(
                Command::UniformMatrix4 { location: self.location.slot, matrix: self.transform },
            );
        }
        commands.push(Command::BindVertexArray { array: self.buffers.vertex_array() });
        commands.push(Command::DrawArrays { mode: Primitive::Triangles, first: 0, count: 36 });
        commands.push(Command::BindVertexArray { array: 0 });
        proof {
            assert(views(commands@) =~= self.draw_commands());
        }
        commands
    }

    fn release(self) -> (commands: Vec<Command<T>>) {
        release(self.buffers)
    }
}

} // verus!
