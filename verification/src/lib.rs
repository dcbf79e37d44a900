//! Geometry, resource bookkeeping and frame planning for a small renderer of
//! 2D and 3D primitives.
//!
//! The library never talks to the graphics driver or the window system. It
//! turns shapes into lists of [`command::Command`] values that a host executes
//! in order, and it takes back from the host what only the host can know:
//! the names of freshly generated GPU objects, the outcome of compiling and
//! linking shader stages, key presses, and coordinates that were computed in
//! the host's own number type.
//!
//! Coordinates are generic: every type that carries them has a parameter `T`
//! for the scalar, and the library only ever copies scalars from one place to
//! another.

pub mod any_shape;
pub mod app;
pub mod buffers;
pub mod circle;
pub mod command;
pub mod cube;
pub mod draw;
pub mod gpu;
pub mod pool;
pub mod rectangle;
pub mod scalar;
pub mod scene;
pub mod shader;
pub mod triangle;
pub mod vector2d;
pub mod vector3d;
pub mod window;
