//! A two-component integer vector in fixed-point units.

use vstd::prelude::*;

verus! {

/// A 2-D vector; both components are fixed-point milli-units.
#[derive(Clone, Copy, PartialEq, Eq, Structural, Debug)]
pub struct Vec2 {
    pub x: i64,
    pub y: i64,
}

impl Vec2 {
    /// The zero vector.
    pub fn zero() -> (v: Vec2)
        ensures
            v.x == 0,
            v.y == 0,
    {
        Vec2 { x: 0, y: 0 }
    }
}

} // verus!
