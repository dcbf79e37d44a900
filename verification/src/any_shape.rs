//! The shapes that a scene can hold, as one type.

use vstd::prelude::*;
use crate::buffers::BufferHandles;
use crate::circle::Circle;
use crate::command::{Command, CommandView, VertexAttribute};
use crate::cube::Cube;
use crate::draw::Shape;
use crate::rectangle::Rectangle;
use crate::shader::Shader;
use crate::triangle::Triangle;

verus! {

/// Any one of the four shapes. It does what the shape inside it does.
#[derive(Debug)]
pub enum AnyShape<T> {
    Triangle(Triangle<T>),
    Rectangle(Rectangle<T>),
    Circle(Circle<T>),
    Cube(Cube<T>),
}

impl<T: Copy> Shape<T> for AnyShape<T> {
    open spec fn buffers(&self) -> BufferHandles {
        match *self {
            AnyShape::Triangle(s) => s.buffers(),
            AnyShape::Rectangle(s) => s.buffers(),
            AnyShape::Circle(s) => s.buffers(),
            AnyShape::Cube(s) => s.buffers(),
        }
    }

    open spec fn shader(&self) -> Shader {
        match *self {
            AnyShape::Triangle(s) => s.shader(),
            AnyShape::Rectangle(s) => s.shader(),
            AnyShape::Circle(s) => s.shader(),
            AnyShape::Cube(s) => s.shader(),
        }
    }

    open spec fn payload(&self) -> Seq<T> {
        match *self {
            AnyShape::Triangle(s) => s.payload(),
            AnyShape::Rectangle(s) => s.payload(),
            AnyShape::Circle(s) => s.payload(),
            AnyShape::Cube(s) => s.payload(),
        }
    }

    open spec fn layout(&self) -> Seq<VertexAttribute> {
        match *self {
            AnyShape::Triangle(s) => s.layout(),
            AnyShape::Rectangle(s) => s.layout(),
            AnyShape::Circle(s) => s.layout(),
            AnyShape::Cube(s) => s.layout(),
        }
    }

    open spec fn draw_commands(&self) -> Seq<CommandView<T>> {
        match *self {
            AnyShape::Triangle(s) => s.draw_commands(),
            AnyShape::Rectangle(s) => s.draw_commands(),
            AnyShape::Circle(s) => s.draw_commands(),
            AnyShape::Cube(s) => s.draw_commands(),
        }
    }

    fn handles(&self) -> (handles: &BufferHandles) {
        match self {
            AnyShape::Triangle(s) => s.handles(),
            AnyShape::Rectangle(s) => s.handles(),
            AnyShape::Circle(s) => s.handles(),
            AnyShape::Cube(s) => s.handles(),
        }
    }

    fn program(&self) -> (shader: Shader) {
        match self {
            AnyShape::Triangle(s) => s.program(),
            AnyShape::Rectangle(s) => s.program(),
            AnyShape::Circle(s) => s.program(),
            AnyShape::Cube(s) => s.program(),
        }
    }

    fn init(&self) -> (commands: Vec<Command<T>>) {
        match self {
            AnyShape::Triangle(s) => s.init(),
            AnyShape::Rectangle(s) => s.init(),
            AnyShape::Circle(s) => s.init(),
            AnyShape::Cube(s) => s.init(),
        }
    }

    fn draw(&self) -> (commands: Vec<Command<T>>) {
        match self {
            AnyShape::Triangle(s) => s.draw(),
            AnyShape::Rectangle(s) => s.draw(),
            AnyShape::Circle(s) => s.draw(),
            AnyShape::Cube(s) => s.draw(),
        }
    }

    fn release(self) -> (commands: Vec<Command<T>>) {
        match self {
            AnyShape::Triangle(s) => s.release(),
            AnyShape::Rectangle(s) => s.release(),
            AnyShape::Circle(s) => s.release(),
            AnyShape::Cube(s) => s.release(),
        }
    }
}

} // verus!
