//! What every shape can do.

use vstd::prelude::*;
use crate::buffers::{release_sequence, upload_sequence, BufferHandles};
use crate::command::{views, Command, CommandView, VertexAttribute};
use crate::shader::Shader;

verus! {

/// A primitive that owns its GPU objects and draws itself with a program
/// that it may share with others.
///
/// A shape's life is `init` once, `draw` any number of times, `release`
/// once. None of the three touches the driver: each returns the commands
/// that the host is to perform. The geometry is fixed when the shape is made.
pub trait Shape<T: Copy>: Sized {
    /// The vertex array and the vertex buffer that belong to this shape alone.
    spec fn buffers(&self) -> BufferHandles;

    /// The program that draws this shape.
    spec fn shader(&self) -> Shader;

    /// The scalars that the vertex buffer is filled with.
    spec fn payload(&self) -> Seq<T>;

    /// How the vertex stage reads the payload.
    spec fn layout(&self) -> Seq<VertexAttribute>;

    /// What one `draw` asks of the host.
    spec fn draw_commands(&self) -> Seq<CommandView<T>>;

    /// The shape's two GPU objects.
    fn handles(&self) -> (handles: &BufferHandles)
        ensures
            *handles == self.buffers(),
    ;

    /// The shape's program.
    fn program(&self) -> (shader: Shader)
        ensures
            shader == self.shader(),
    ;

    /// The commands that upload the geometry. They end with nothing bound.
    fn init(&self) -> (commands: Vec<Command<T>>)
        ensures
            views(commands@) == upload_sequence(
                self.buffers().array(),
                self.buffers().buffer(),
                self.payload(),
                self.layout(),
            ),
    ;

    /// The commands that draw the shape once.
    fn draw(&self) -> (commands: Vec<Command<T>>)
        ensures
            views(commands@) == self.draw_commands(),
    ;

    /// Ends the shape and returns the commands that release its two GPU
    /// objects. The program is not released: it is shared.
    fn release(self) -> (commands: Vec<Command<T>>)
        ensures
            views(commands@) == release_sequence::<T>(
                self.buffers().array(),
                self.buffers().buffer(),
            ),
    ;
}

} // verus!
