//! The two constants of the host's scalar type that geometry needs.

use vstd::prelude::*;

verus! {

/// The additive and the multiplicative identity of the scalar type `T`.
///
/// The library cannot write a literal of an arbitrary `T`, so whoever picks
/// the scalar type hands these two values in once.
#[derive(Clone, Copy, Debug, PartialEq)]
pub struct Scalars<T> {
    pub zero: T,
    pub one: T,
}

impl<T: Copy> Scalars<T> {
    pub fn new(zero: T, one: T) -> (s: Self)
        ensures
            s.zero == zero,
            s.one == one,
    {
        Scalars { zero, one }
    }
}

} // verus!
