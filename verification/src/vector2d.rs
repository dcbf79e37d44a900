//! Two-component vectors.

use vstd::prelude::*;
use crate::scalar::Scalars;

verus! {

/// A point or direction in the plane. A plain value: copied freely, equal
/// when the components are equal.
#[derive(Clone, Copy, Debug, PartialEq)]
pub struct Vector2D<T> {
    pub x: T,
    pub y: T,
}

impl<T: Copy> Vector2D<T> {
    pub fn new(x: T, y: T) -> (v: Self)
        ensures
            v.x == x,
            v.y == y,
    {
        Vector2D { x, y }
    }

    /// The vector whose components are both the scalar zero.
    pub fn zero(scalars: &Scalars<T>) -> (v: Self)
        ensures
            v.x == scalars.zero,
            v.y == scalars.zero,
    {
        Vector2D { x: scalars.zero, y: scalars.zero }
    }
}

} // verus!
