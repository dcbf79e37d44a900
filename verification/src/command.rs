//! What the library asks its host to do.
//!
//! A [`Command`] names one call on the graphics driver or the window. The
//! library hands out lists of them; the host performs each in order and adds
//! nothing of its own. Contracts speak of a command by its view,
//! [`CommandView`], in which an uploaded buffer is a mathematical sequence.

use vstd::prelude::*;
use crate::scalar::Scalars;

verus! {

/// How consecutive vertices are assembled into triangles.
#[derive(Clone, Copy, Debug, PartialEq, Eq, Structural)]
pub enum Primitive {
    /// Every three vertices form one triangle.
    Triangles,
    /// Vertex `i > 1` forms a triangle with vertex 0 and vertex `i - 1`.
    TriangleFan,
}

/// Where one attribute of a vertex lies inside the interleaved buffer.
///
/// All three lengths count scalars, not bytes: the host multiplies by the
/// size of its scalar type.
#[derive(Clone, Copy, Debug, PartialEq, Eq, Structural)]
pub struct VertexAttribute {
    /// The attribute's slot in the vertex stage.
    pub index: u32,
    /// How many scalars the attribute has.
    pub components: u32,
    /// The distance from one vertex to the next.
    pub stride: u32,
    /// Where the attribute starts inside a vertex.
    pub offset: u32,
}

impl VertexAttribute {
    /// The attribute stays inside one vertex.
    pub open spec fn fits(&self) -> bool {
        self.components > 0 && self.offset + self.components <= self.stride
    }
}

/// A 4×4 matrix, row by row, as it is handed to the GPU.
#[derive(Clone, Copy, Debug, PartialEq)]
pub struct Matrix4<T> {
    pub cells: [T; 16],
}

/// The cell of the identity matrix at flat position `i`.
pub open spec fn identity_cell<T>(scalars: Scalars<T>, i: int) -> T {
    if i % 5 == 0 {
        scalars.one
    } else {
        scalars.zero
    }
}

impl<T: Copy> Matrix4<T> {
    /// The matrix that leaves every vertex where it is: ones on the
    /// diagonal, zeros elsewhere.
    pub fn identity(scalars: &Scalars<T>) -> (m: Self)
        ensures
            forall|i: int| 0 <= i < 16 ==> m.cells@[i] == identity_cell(*scalars, i),
    {
        let o = scalars.one;
        let z = scalars.zero;
        Matrix4 { cells: [o, z, z, z, z, o, z, z, z, z, o, z, z, z, z, o] }
    }
}

/// One request to the host.
#[derive(Clone, Debug, PartialEq)]
pub enum Command<T> {
    /// Process the window system's pending events without waiting.
    PollEvents,
    /// Present the finished frame.
    SwapBuffers,
    /// Switch depth testing on or off.
    DepthTest { enabled: bool },
    /// Clear the colour buffer, the depth buffer, or both.
    Clear { color: bool, depth: bool },
    /// Make `array` the current vertex array; 0 leaves none current.
    BindVertexArray { array: u32 },
    /// Make `buffer` the current vertex buffer; 0 leaves none current.
    BindBuffer { buffer: u32 },
    /// Replace what the current vertex buffer holds by `data`, as data that
    /// is written once and drawn many times.
    BufferData { data: Vec<T> },
    /// Describe one attribute of the current vertex array, read from the
    /// current vertex buffer.
    VertexAttribPointer { attribute: VertexAttribute },
    /// Switch an attribute slot of the current vertex array on.
    EnableVertexAttribArray { index: u32 },
    /// Make `program` the active shader program.
    UseProgram { program: u32 },
    /// Store `matrix` in the uniform at `location` of the active program.
    UniformMatrix4 { location: i32, matrix: Matrix4<T> },
    /// Draw `count` vertices of the current vertex array, starting at `first`.
    DrawArrays { mode: Primitive, first: i32, count: i32 },
    /// Release a vertex array.
    DeleteVertexArray { array: u32 },
    /// Release a vertex buffer.
    DeleteBuffer { buffer: u32 },
    /// Release a shader program.
    DeleteProgram { program: u32 },
}

/// A [`Command`] as contracts see it.
pub enum CommandView<T> {
    PollEvents,
    SwapBuffers,
    DepthTest { enabled: bool },
    Clear { color: bool, depth: bool },
    BindVertexArray { array: u32 },
    BindBuffer { buffer: u32 },
    BufferData { data: Seq<T> },
    VertexAttribPointer { attribute: VertexAttribute },
    EnableVertexAttribArray { index: u32 },
    UseProgram { program: u32 },
    UniformMatrix4 { location: i32, matrix: Seq<T> },
    DrawArrays { mode: Primitive, first: i32, count: i32 },
    DeleteVertexArray { array: u32 },
    DeleteBuffer { buffer: u32 },
    DeleteProgram { program: u32 },
}

impl<T> View for Command<T> {
    type V = CommandView<T>;

    open spec fn view(&self) -> CommandView<T> {
        match *self {
            Command::PollEvents => CommandView::PollEvents,
            Command::SwapBuffers => CommandView::SwapBuffers,
            Command::DepthTest { enabled } => CommandView::DepthTest { enabled },
            Command::Clear { color, depth } => CommandView::Clear { color, depth },
            Command::BindVertexArray { array } => CommandView::BindVertexArray { array },
            Command::BindBuffer { buffer } => CommandView::BindBuffer { buffer },
            Command::BufferData { data } => CommandView::BufferData { data: data@ },
            Command::VertexAttribPointer { attribute } => CommandView::VertexAttribPointer {
                attribute,
            },
            Command::EnableVertexAttribArray { index } => CommandView::EnableVertexAttribArray {
                index,
            },
            Command::UseProgram { program } => CommandView::UseProgram { program },
            Command::UniformMatrix4 { location, matrix } => CommandView::UniformMatrix4 {
                location,
                matrix: matrix.cells@,
            },
            Command::DrawArrays { mode, first, count } => CommandView::DrawArrays {
                mode,
                first,
                count,
            },
            Command::DeleteVertexArray { array } => CommandView::DeleteVertexArray { array },
            Command::DeleteBuffer { buffer } => CommandView::DeleteBuffer { buffer },
            Command::DeleteProgram { program } => CommandView::DeleteProgram { program },
        }
    }
}

/// The views of a list of commands, in the same order.
pub open spec fn views<T>(commands: Seq<Command<T>>) -> Seq<CommandView<T>> {
    Seq::new(commands.len(), |i: int| commands[i]@)
}

/// Viewing a concatenation is concatenating the views.
pub proof fn lemma_views_add<T>(a: Seq<Command<T>>, b: Seq<Command<T>>)
    ensures
        views(a + b) == views(a) + views(b),
{
    assert(views(a + b) =~= views(a) + views(b));
}

/// Viewing a list with one more command at its end.
pub proof fn lemma_views_push<T>(a: Seq<Command<T>>, c: Command<T>)
    ensures
        views(a.push(c)) == views(a).push(c@),
{
    assert(views(a.push(c)) =~= views(a).push(c@));
}

/// Moves the commands of `tail` to the end of `commands`.
pub fn append_commands<T>(commands: &mut Vec<Command<T>>, tail: Vec<Command<T>>)
    ensures
        views(final(commands)@) == views(old(commands)@) + views(tail@),
{
    let mut tail = tail;
    proof {
        lemma_views_add(commands@, tail@);
    }
    commands.append(&mut tail);
}

} // verus!
