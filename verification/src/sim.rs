//! Simulation orchestration: per-frame gravity adjustment from input,
//! force computation, integration and boundary resolution, plus the
//! frame statistics a HUD displays and the randomized initial
//! population.

use vstd::prelude::*;
use vstd::arithmetic::div_mod::{lemma_div_is_ordered, lemma_div_pos_is_pos};
use crate::body::{Body, Color};
use crate::boundary::{lemma_resolve_axis_contains, resolve_bounds, spec_resolve_axis};
use crate::forces::{compute_forces, spec_net_force};
use crate::limits::{
    DT_LIMIT, GRAVITY_LIMIT, GRAVITY_STEP, MAX_BODIES, NET_FORCE_LIMIT, VIEW_LIMIT,
};
use crate::math::{abs_of, sqrt_floor, lemma_sqrt_floor_upper, isqrt};
use crate::motion::{integrate_body, spec_new_position_axis, spec_new_velocity_axis};
use crate::rng::random_in_range;
use crate::vec2::Vec2;

verus! {

/// The gravitational constant the simulation starts with.
pub const INITIAL_GRAVITY: i64 = 5_000;

/// The input signals one frame reads: raise or lower the gravitational
/// constant while the respective key is held.
#[derive(Clone, Copy, PartialEq, Eq, Structural, Debug)]
pub struct FrameInput {
    pub raise_gravity: bool,
    pub lower_gravity: bool,
}

/// The gravitational constant after one frame's input: raised by a step
/// (saturating at the machine bound), then lowered by a step but never
/// below zero.
pub open spec fn spec_adjust_gravity(g: int, input: FrameInput) -> int {
    let g1 = if input.raise_gravity {
        if g + GRAVITY_STEP <= GRAVITY_LIMIT {
            g + GRAVITY_STEP
        } else {
            GRAVITY_LIMIT as int
        }
    } else {
        g
    };
    if input.lower_gravity {
        if g1 - GRAVITY_STEP >= 0 {
            g1 - GRAVITY_STEP
        } else {
            0
        }
    } else {
        g1
    }
}

/// The gravitational constant after a whole sequence of frame inputs.
pub open spec fn spec_adjust_gravity_seq(g: int, inputs: Seq<FrameInput>) -> int
    decreases inputs.len(),
{
    if inputs.len() == 0 {
        g
    } else {
        spec_adjust_gravity_seq(spec_adjust_gravity(g, inputs[0]), inputs.drop_first())
    }
}

/// The gravity floor: one frame's adjustment keeps the constant
/// non-negative (and below the machine bound).
pub proof fn lemma_gravity_floor(g: int, input: FrameInput)
    requires
        0 <= g <= GRAVITY_LIMIT,
    ensures
        0 <= spec_adjust_gravity(g, input) <= GRAVITY_LIMIT,
{
}

/// The gravity floor over time: after any sequence of raise/lower
/// signals the constant is still non-negative and bounded.
pub proof fn lemma_gravity_floor_seq(g: int, inputs: Seq<FrameInput>)
    requires
        0 <= g <= GRAVITY_LIMIT,
    ensures
        0 <= spec_adjust_gravity_seq(g, inputs) <= GRAVITY_LIMIT,
    decreases inputs.len(),
{
    if inputs.len() > 0 {
        lemma_gravity_floor(g, inputs[0]);
        lemma_gravity_floor_seq(spec_adjust_gravity(g, inputs[0]), inputs.drop_first());
    }
}

/// How one body changes over a frame: velocity integrated from the given
/// net force and damped, position advanced by the pre-update velocity,
/// then both axes resolved against the viewport; mass, radius and color
/// unchanged.
pub open spec fn spec_body_stepped(
    b0: Body,
    b1: Body,
    f: (int, int),
    dt: int,
    width: int,
    height: int,
) -> bool {
    let vx1 = spec_new_velocity_axis(b0.velocity.x as int, f.0, dt, b0.mass as int);
    let vy1 = spec_new_velocity_axis(b0.velocity.y as int, f.1, dt, b0.mass as int);
    let px1 = spec_new_position_axis(b0.position.x as int, b0.velocity.x as int, dt);
    let py1 = spec_new_position_axis(b0.position.y as int, b0.velocity.y as int, dt);
    let rx = spec_resolve_axis(px1, vx1, b0.radius as int, width);
    let ry = spec_resolve_axis(py1, vy1, b0.radius as int, height);
    &&& b1.position.x == rx.0
    &&& b1.velocity.x == rx.1
    &&& b1.position.y == ry.0
    &&& b1.velocity.y == ry.1
    &&& b1.mass == b0.mass
    &&& b1.radius == b0.radius
    &&& b1.color == b0.color
}

/// Boundary containment: any body that fits the viewport at all is,
/// after a frame, contained in `[radius, viewport - radius]` on both
/// axes.
pub proof fn lemma_stepped_body_contained(
    b0: Body,
    b1: Body,
    f: (int, int),
    dt: int,
    width: int,
    height: int,
)
    requires
        spec_body_stepped(b0, b1, f, dt, width, height),
        0 <= b0.radius,
        2 * b0.radius <= width,
        2 * b0.radius <= height,
    ensures
        b0.radius <= b1.position.x <= width - b0.radius,
        b0.radius <= b1.position.y <= height - b0.radius,
{
    lemma_resolve_axis_contains(
        spec_new_position_axis(b0.position.x as int, b0.velocity.x as int, dt),
        spec_new_velocity_axis(b0.velocity.x as int, f.0, dt, b0.mass as int),
        b0.radius as int,
        width,
    );
    lemma_resolve_axis_contains(
        spec_new_position_axis(b0.position.y as int, b0.velocity.y as int, dt),
        spec_new_velocity_axis(b0.velocity.y as int, f.1, dt, b0.mass as int),
        b0.radius as int,
        height,
    );
}

/// Kinetic energy of one body, `m * |v|^2 / 2` in fixed-point units.
pub open spec fn spec_body_ke(b: Body) -> int {
    (b.mass as int) * ((b.velocity.x as int) * (b.velocity.x as int) + (b.velocity.y as int) * (
    b.velocity.y as int)) / 2
}

/// Total kinetic energy of the first `n` bodies.
pub open spec fn spec_total_ke_prefix(bodies: Seq<Body>, n: int) -> int
    decreases n,
{
    if n <= 0 {
        0
    } else {
        spec_total_ke_prefix(bodies, n - 1) + spec_body_ke(bodies[n - 1])
    }
}

/// Total kinetic energy of the whole population.
pub open spec fn spec_total_ke(bodies: Seq<Body>) -> int {
    spec_total_ke_prefix(bodies, bodies.len() as int)
}

/// One body's kinetic energy is never negative, and is bounded for a
/// well-formed body.
pub proof fn lemma_body_ke_bounds(b: Body)
    requires
        b.wf(),
    ensures
        0 <= spec_body_ke(b) <= 100_000_000_000_000_000_000_000int,
{
    let sq = (b.velocity.x as int) * (b.velocity.x as int) + (b.velocity.y as int) * (
    b.velocity.y as int);
    assert(0 <= sq <= 2_000_000_000_000_000_000int) by (nonlinear_arith)
        requires
            -1_000_000_000 <= b.velocity.x <= 1_000_000_000,
            -1_000_000_000 <= b.velocity.y <= 1_000_000_000,
            sq == (b.velocity.x as int) * (b.velocity.x as int) + (b.velocity.y as int) * (
            b.velocity.y as int),
    ;
    assert(0 <= (b.mass as int) * sq <= 200_000_000_000_000_000_000_000int) by (nonlinear_arith)
        requires
            0 < b.mass <= 100_000,
            0 <= sq <= 2_000_000_000_000_000_000int,
    ;
    lemma_div_pos_is_pos((b.mass as int) * sq, 2);
    lemma_div_is_ordered((b.mass as int) * sq, 200_000_000_000_000_000_000_000int, 2);
}

/// Energy non-negativity: the total kinetic energy of any prefix of a
/// well-formed population is at least zero.
pub proof fn lemma_total_ke_prefix_nonneg(bodies: Seq<Body>, n: int)
    requires
        n <= bodies.len(),
        forall|k: int| 0 <= k < bodies.len() ==> (#[trigger] bodies[k]).wf(),
    ensures
        spec_total_ke_prefix(bodies, n) >= 0,
    decreases n,
{
    if n > 0 {
        lemma_total_ke_prefix_nonneg(bodies, n - 1);
        lemma_body_ke_bounds(bodies[n - 1]);
    }
}

/// Energy non-negativity for the whole population.
pub proof fn lemma_total_ke_nonneg(bodies: Seq<Body>)
    requires
        forall|k: int| 0 <= k < bodies.len() ==> (#[trigger] bodies[k]).wf(),
    ensures
        spec_total_ke(bodies) >= 0,
{
    lemma_total_ke_prefix_nonneg(bodies, bodies.len() as int);
}

/// Speed (magnitude of the velocity) of one body, rounded down.
pub open spec fn spec_body_speed(b: Body) -> int {
    sqrt_floor(
        (b.velocity.x as int) * (b.velocity.x as int) + (b.velocity.y as int) * (
        b.velocity.y as int),
    )
}

/// Sum of the speeds of the first `n` bodies.
pub open spec fn spec_total_speed_prefix(bodies: Seq<Body>, n: int) -> int
    decreases n,
{
    if n <= 0 {
        0
    } else {
        spec_total_speed_prefix(bodies, n - 1) + spec_body_speed(bodies[n - 1])
    }
}

/// The whole simulation state: the fixed population and the live
/// gravitational constant.
pub struct SimulationState {
    pub bodies: Vec<Body>,
    pub gravitational_constant: i64,
}

impl SimulationState {
    /// Well-formedness: a bounded population of well-formed bodies and a
    /// gravitational constant in `[0, GRAVITY_LIMIT]`.
    pub open spec fn wf(self) -> bool {
        &&& self.bodies@.len() <= MAX_BODIES
        &&& forall|k: int| 0 <= k < self.bodies@.len() ==> (#[trigger] self.bodies@[k]).wf()
        &&& 0 <= self.gravitational_constant <= GRAVITY_LIMIT
    }

    /// Assemble a state from a population and an initial constant.
    pub fn new(bodies: Vec<Body>, gravitational_constant: i64) -> (s: SimulationState)
        requires
            bodies@.len() <= MAX_BODIES,
            forall|k: int| 0 <= k < bodies@.len() ==> (#[trigger] bodies@[k]).wf(),
            0 <= gravitational_constant <= GRAVITY_LIMIT,
        ensures
            s.wf(),
            s.bodies@ == bodies@,
            s.gravitational_constant == gravitational_constant,
    {
        SimulationState { bodies, gravitational_constant }
    }

    /// One frame: adjust gravity from input, compute all pairwise
    /// forces from the resulting constant, then integrate and resolve
    /// every body against the viewport — exactly in that order.
    pub fn step(&mut self, dt: i64, input: FrameInput, width: i64, height: i64)
        requires
            old(self).wf(),
            0 <= dt <= DT_LIMIT,
            0 <= width <= VIEW_LIMIT,
            0 <= height <= VIEW_LIMIT,
        ensures
            final(self).wf(),
            final(self).gravitational_constant == spec_adjust_gravity(
                old(self).gravitational_constant as int, input),
            final(self).bodies@.len() == old(self).bodies@.len(),
            forall|k: int| 0 <= k < old(self).bodies@.len() ==> spec_body_stepped(
                old(self).bodies@[k], #[trigger] final(self).bodies@[k],
                spec_net_force(old(self).bodies@, spec_adjust_gravity(
                    old(self).gravitational_constant as int, input), k), dt as int, width as int,
                height as int),
    {
        if input.raise_gravity {
            if self.gravitational_constant <= GRAVITY_LIMIT - GRAVITY_STEP {
                self.gravitational_constant = self.gravitational_constant + GRAVITY_STEP;
            } else {
                self.gravitational_constant = GRAVITY_LIMIT;
            }
        }
        if input.lower_gravity {
            if self.gravitational_constant >= GRAVITY_STEP {
                self.gravitational_constant = self.gravitational_constant - GRAVITY_STEP;
            } else {
                self.gravitational_constant = 0;
            }
        }
        let g = self.gravitational_constant;
        let forces = compute_forces(&self.bodies, g);
        let n = self.bodies.len();
        let mut k: usize = 0;
        while k < n
            invariant
                n == old(self).bodies@.len(),
                self.bodies@.len() == n,
                self.gravitational_constant == g,
                g as int == spec_adjust_gravity(old(self).gravitational_constant as int, input),
                0 <= g <= GRAVITY_LIMIT,
                0 <= dt <= DT_LIMIT,
                0 <= width <= VIEW_LIMIT,
                0 <= height <= VIEW_LIMIT,
                forces@.len() == n,
                forall|m: int| 0 <= m < n ==> (#[trigger] forces@[m]).x == spec_net_force(
                    old(self).bodies@, g as int, m).0 && forces@[m].y == spec_net_force(
                    old(self).bodies@, g as int, m).1 && abs_of(forces@[m].x as int)
                    <= NET_FORCE_LIMIT && abs_of(forces@[m].y as int) <= NET_FORCE_LIMIT,
                k <= n,
                forall|m: int| 0 <= m < n ==> (#[trigger] self.bodies@[m]).wf(),
                forall|m: int| k <= m < n ==> self.bodies@[m] == old(self).bodies@[m],
                forall|m: int| 0 <= m < k ==> spec_body_stepped(old(self).bodies@[m],
                    #[trigger] self.bodies@[m], spec_net_force(old(self).bodies@, g as int, m),
                    dt as int, width as int, height as int),
            decreases n - k,
        {
            let f = forces[k];
            let mut b = self.bodies[k];
            integrate_body(&mut b, f, dt);
            resolve_bounds(&mut b, width, height);
            self.bodies[k] = b;
            k += 1;
        }
    }

    /// Total kinetic energy of the population, `sum of m * |v|^2 / 2`.
    pub fn total_kinetic_energy(&self) -> (e: u128)
        requires
            self.wf(),
        ensures
            e as int == spec_total_ke(self.bodies@),
    {
        let n = self.bodies.len();
        let mut acc: u128 = 0;
        let mut k: usize = 0;
        while k < n
            invariant
                self.wf(),
                n == self.bodies@.len(),
                k <= n,
                acc as int == spec_total_ke_prefix(self.bodies@, k as int),
                acc <= (k as u128) * 100_000_000_000_000_000_000_000u128,
            decreases n - k,
        {
            let b = self.bodies[k];
            let ux: u128 = if b.velocity.x >= 0 {
                b.velocity.x as u128
            } else {
                (-b.velocity.x) as u128
            };
            let uy: u128 = if b.velocity.y >= 0 {
                b.velocity.y as u128
            } else {
                (-b.velocity.y) as u128
            };
            proof {
                lemma_body_ke_bounds(self.bodies@[k as int]);
                assert((ux as int) * (ux as int) == (b.velocity.x as int) * (b.velocity.x as int)
                    && (uy as int) * (uy as int) == (b.velocity.y as int) * (
                b.velocity.y as int)) by (nonlinear_arith)
                    requires
                        ux == abs_of(b.velocity.x as int),
                        uy == abs_of(b.velocity.y as int),
                ;
                assert((ux as int) * (ux as int) <= 1_000_000_000_000_000_000int && (uy as int) * (
                uy as int) <= 1_000_000_000_000_000_000int) by (nonlinear_arith)
                    requires
                        0 <= ux <= 1_000_000_000u128,
                        0 <= uy <= 1_000_000_000u128,
                ;
            }
            let sq: u128 = ux * ux + uy * uy;
            proof {
                assert((b.mass as u128 as int) * (sq as int)
                    <= 200_000_000_000_000_000_000_000int) by (nonlinear_arith)
                    requires
                        0 <= b.mass as u128 <= 100_000u128,
                        0 <= sq <= 2_000_000_000_000_000_000u128,
                ;
            }
            let term: u128 = (b.mass as u128) * sq / 2;
            proof {
                assert((k as u128 as int) * 100_000_000_000_000_000_000_000int
                    + 100_000_000_000_000_000_000_000int == (k as int + 1)
                    * 100_000_000_000_000_000_000_000int) by (nonlinear_arith);
            }
            acc = acc + term;
            k += 1;
        }
        acc
    }

    /// Mean speed of the population (`sum of |v|` over the count,
    /// rounded down). The population is never empty.
    pub fn average_speed(&self) -> (s: u64)
        requires
            self.wf(),
            self.bodies@.len() >= 1,
        ensures
            s as int == spec_total_speed_prefix(self.bodies@, self.bodies@.len() as int) / (
            self.bodies@.len() as int),
    {
        let n = self.bodies.len();
        let mut acc: u64 = 0;
        let mut k: usize = 0;
        while k < n
            invariant
                self.wf(),
                n == self.bodies@.len(),
                k <= n,
                acc as int == spec_total_speed_prefix(self.bodies@, k as int),
                acc <= (k as u64) * 1_500_000_000u64,
            decreases n - k,
        {
            let b = self.bodies[k];
            let ux: u128 = if b.velocity.x >= 0 {
                b.velocity.x as u128
            } else {
                (-b.velocity.x) as u128
            };
            let uy: u128 = if b.velocity.y >= 0 {
                b.velocity.y as u128
            } else {
                (-b.velocity.y) as u128
            };
            proof {
                assert((ux as int) * (ux as int) == (b.velocity.x as int) * (b.velocity.x as int)
                    && (uy as int) * (uy as int) == (b.velocity.y as int) * (
                b.velocity.y as int)) by (nonlinear_arith)
                    requires
                        ux == abs_of(b.velocity.x as int),
                        uy == abs_of(b.velocity.y as int),
                ;
                assert((ux as int) * (ux as int) <= 1_000_000_000_000_000_000int && (uy as int) * (
                uy as int) <= 1_000_000_000_000_000_000int) by (nonlinear_arith)
                    requires
                        0 <= ux <= 1_000_000_000u128,
                        0 <= uy <= 1_000_000_000u128,
                ;
            }
            let sq: u128 = ux * ux + uy * uy;
            let speed: u64 = isqrt(sq);
            proof {
                assert(1_500_000_000int * 1_500_000_000int == 2_250_000_000_000_000_000int)
                    by (nonlinear_arith);
                lemma_sqrt_floor_upper(sq as int, 1_500_000_000int);
                assert((k as u64 as int) * 1_500_000_000int + 1_500_000_000int == (k as int + 1)
                    * 1_500_000_000int) by (nonlinear_arith);
            }
            acc = acc + speed;
            k += 1;
        }
        acc / (n as u64)
    }
}

/// Spawn a population of `count` bodies: positions clustered within
/// one tenth of the half-viewport around the center, small random
/// velocities, masses in `[8, 75)` scaled, derived radii and random
/// colors.
pub fn spawn_bodies(count: usize, width: i64, height: i64) -> (bodies: Vec<Body>)
    requires
        count <= MAX_BODIES,
        20 <= width <= VIEW_LIMIT,
        20 <= height <= VIEW_LIMIT,
    ensures
        bodies@.len() == count,
        forall|k: int| 0 <= k < count ==> (#[trigger] bodies@[k]).wf(),
        forall|k: int| 0 <= k < count ==> 8_000 <= (#[trigger] bodies@[k]).mass < 75_000,
        forall|k: int| 0 <= k < count ==> {
            let cx = (width as int) / 2;
            let cy = (height as int) / 2;
            &&& cx - cx / 10 <= (#[trigger] bodies@[k]).position.x < cx + cx / 10
            &&& cy - cy / 10 <= bodies@[k].position.y < cy + cy / 10
        },
        forall|k: int| 0 <= k < count ==> -100 <= (#[trigger] bodies@[k]).velocity.x < 100
            && -100 <= bodies@[k].velocity.y < 100,
{
    let cx: i64 = ((width as u64) / 2) as i64;
    let cy: i64 = ((height as u64) / 2) as i64;
    let sx: i64 = ((cx as u64) / 10) as i64;
    let sy: i64 = ((cy as u64) / 10) as i64;
    proof {
        lemma_div_is_ordered(20, width as int, 2);
        lemma_div_is_ordered(20, height as int, 2);
        lemma_div_is_ordered(10, cx as int, 10);
        lemma_div_is_ordered(10, cy as int, 10);
        lemma_div_is_ordered(cx as int, 1_000_000_000, 10);
        lemma_div_is_ordered(cy as int, 1_000_000_000, 10);
        lemma_div_is_ordered(width as int, 1_000_000_000, 2);
        lemma_div_is_ordered(height as int, 1_000_000_000, 2);
    }
    let mut bodies: Vec<Body> = Vec::new();
    while bodies.len() < count
        invariant
            count <= MAX_BODIES,
            20 <= width <= VIEW_LIMIT,
            20 <= height <= VIEW_LIMIT,
            cx as int == (width as int) / 2,
            cy as int == (height as int) / 2,
            sx as int == (cx as int) / 10,
            sy as int == (cy as int) / 10,
            1 <= sx <= 100_000_000,
            1 <= sy <= 100_000_000,
            10 <= cx <= 500_000_000,
            10 <= cy <= 500_000_000,
            bodies@.len() <= count,
            forall|k: int| 0 <= k < bodies@.len() ==> (#[trigger] bodies@[k]).wf(),
            forall|k: int| 0 <= k < bodies@.len() ==> 8_000 <= (#[trigger] bodies@[k]).mass
                < 75_000,
            forall|k: int| 0 <= k < bodies@.len() ==> cx - sx <= (
            #[trigger] bodies@[k]).position.x < cx + sx && cy - sy <= bodies@[k].position.y < cy
                + sy,
            forall|k: int| 0 <= k < bodies@.len() ==> -100 <= (#[trigger] bodies@[k]).velocity.x
                < 100 && -100 <= bodies@[k].velocity.y < 100,
        decreases count - bodies@.len(),
    {
        let px = random_in_range(cx - sx, cx + sx);
        let py = random_in_range(cy - sy, cy + sy);
        let vx = random_in_range(-100, 100);
        let vy = random_in_range(-100, 100);
        let mass = random_in_range(8_000, 75_000);
        let cr = random_in_range(0, 1_000) as u16;
        let cg = random_in_range(0, 1_000) as u16;
        let cb = random_in_range(0, 1_000) as u16;
        let ca = random_in_range(0, 1_000) as u16;
        let body = Body::new(px, py, vx, vy, mass, Color { r: cr, g: cg, b: cb, a: ca });
        bodies.push(body);
    }
    bodies
}

} // verus!
