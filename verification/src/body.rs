//! The simulated particle: a circle with position, velocity, mass,
//! derived radius and a fixed color.

use vstd::prelude::*;
use crate::limits::{MASS_LIMIT, POS_LIMIT, VEL_LIMIT};
use crate::vec2::Vec2;

verus! {

/// An RGBA color; each channel is a milli-unit in `[0, 1000)`,
/// standing for an intensity in `[0, 1)`.
#[derive(Clone, Copy, PartialEq, Eq, Structural, Debug)]
pub struct Color {
    pub r: u16,
    pub g: u16,
    pub b: u16,
    pub a: u16,
}

/// A circular body. Coordinates, velocities and mass are fixed-point
/// milli-units; the radius is derived from the mass and never mutated
/// on its own.
#[derive(Clone, Copy, PartialEq, Eq, Structural, Debug)]
pub struct Body {
    pub position: Vec2,
    pub velocity: Vec2,
    pub radius: i64,
    pub mass: i64,
    pub color: Color,
}

impl Body {
    /// Well-formedness: positive bounded mass, radius exactly half the
    /// mass, and position/velocity within the machine bounds.
    pub open spec fn wf(self) -> bool {
        &&& 0 < self.mass <= MASS_LIMIT
        &&& self.radius == self.mass / 2
        &&& -POS_LIMIT <= self.position.x <= POS_LIMIT
        &&& -POS_LIMIT <= self.position.y <= POS_LIMIT
        &&& -VEL_LIMIT <= self.velocity.x <= VEL_LIMIT
        &&& -VEL_LIMIT <= self.velocity.y <= VEL_LIMIT
    }

    /// Build a well-formed body from plain values; the radius is derived
    /// as half the mass.
    pub fn new(px: i64, py: i64, vx: i64, vy: i64, mass: i64, color: Color) -> (b: Body)
        requires
            0 < mass <= MASS_LIMIT,
            -POS_LIMIT <= px <= POS_LIMIT,
            -POS_LIMIT <= py <= POS_LIMIT,
            -VEL_LIMIT <= vx <= VEL_LIMIT,
            -VEL_LIMIT <= vy <= VEL_LIMIT,
        ensures
            b.wf(),
            b.position == (Vec2 { x: px, y: py }),
            b.velocity == (Vec2 { x: vx, y: vy }),
            b.mass == mass,
            b.radius == mass / 2,
            b.color == color,
    {
        Body {
            position: Vec2 { x: px, y: py },
            velocity: Vec2 { x: vx, y: vy },
            radius: mass / 2,
            mass,
            color,
        }
    }
}

} // verus!
