//! Three-component vectors.

use vstd::prelude::*;
use crate::scalar::Scalars;
use crate::vector2d::Vector2D;

verus! {

/// A point or direction in space. A plain value: copied freely, equal when
/// the components are equal.
#[derive(Clone, Copy, Debug, PartialEq)]
pub struct Vector3D<T> {
    pub x: T,
    pub y: T,
    pub z: T,
}

impl<T: Copy> Vector3D<T> {
    pub fn new(x: T, y: T, z: T) -> (v: Self)
        ensures
            v.x == x,
            v.y == y,
            v.z == z,
    {
        Vector3D { x, y, z }
    }

    /// The vector whose components are all the scalar zero.
    pub fn zero(scalars: &Scalars<T>) -> (v: Self)
        ensures
            v.x == scalars.zero,
            v.y == scalars.zero,
            v.z == scalars.zero,
    {
        Vector3D { x: scalars.zero, y: scalars.zero, z: scalars.zero }
    }

    /// Places a planar point at height `z`.
    pub fn from_plane(p: &Vector2D<T>, z: T) -> (v: Self)
        ensures
            v.x == p.x,
            v.y == p.y,
            v.z == z,
    {
        Vector3D { x: p.x, y: p.y, z }
    }
}

} // verus!
