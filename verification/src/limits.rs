//! Global constants: the fixed-point scale and the machine bounds that
//! keep every intermediate computation inside `i64`/`i128`/`u128` range.

use vstd::prelude::*;

verus! {

/// Fixed-point scale: one pixel (or one second, or one mass unit) is
/// `SCALE` integer units.
pub const SCALE: i64 = 1_000;

/// One squared pixel in fixed-point units (`SCALE * SCALE`): pairs of
/// bodies at most this close contribute no force.
pub const MIN_DIST_SQ: i64 = 1_000_000;

/// Largest coordinate magnitude a body may ever hold.
pub const POS_LIMIT: i64 = 10_000_000_000_000;

/// Largest velocity component magnitude (per second, scaled).
pub const VEL_LIMIT: i64 = 1_000_000_000;

/// Largest body mass (scaled); masses are created far below this.
pub const MASS_LIMIT: i64 = 100_000;

/// Upper bound on the gravitational constant.
pub const GRAVITY_LIMIT: i64 = 10_000_000;

/// Per-frame increment/decrement of the gravitational constant.
pub const GRAVITY_STEP: i64 = 50;

/// Largest frame time (scaled seconds).
pub const DT_LIMIT: i64 = 1_000_000;

/// Largest viewport width or height (scaled pixels).
pub const VIEW_LIMIT: i64 = 1_000_000_000;

/// Largest number of bodies in a simulation.
pub const MAX_BODIES: usize = 10_000;

/// Bound on either component of a single pairwise force.
pub const FORCE_LIMIT: i64 = 100_000_000_000_000;

/// Bound on either component of a net force accumulator
/// (`MAX_BODIES * FORCE_LIMIT`).
pub const NET_FORCE_LIMIT: i64 = 1_000_000_000_000_000_000;

} // verus!
