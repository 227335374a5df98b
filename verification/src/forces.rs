//! Pairwise gravitational force accumulation.
//!
//! Every unordered pair of distinct bodies is evaluated exactly once;
//! the single force vector of a pair is added to one body's accumulator
//! and subtracted from the other's, so the pair's total momentum
//! contribution is exactly zero. Pairs closer than one pixel contribute
//! nothing at all.

use vstd::prelude::*;
use vstd::arithmetic::div_mod::{
    lemma_div_is_ordered, lemma_div_is_ordered_by_denominator, lemma_div_multiples_vanish,
    lemma_div_pos_is_pos,
};
use vstd::arithmetic::mul::lemma_mul_inequality;
use crate::body::Body;
use crate::limits::{FORCE_LIMIT, GRAVITY_LIMIT, MAX_BODIES, MIN_DIST_SQ, NET_FORCE_LIMIT, SCALE};
use crate::math::{
    abs_of, isqrt, lemma_sqrt_floor_bracket, sqrt_floor, DIST_SQ_LIMIT,
};
use crate::vec2::Vec2;

verus! {

/// Sign of a mathematical integer: -1, 0 or 1.
pub open spec fn sign_of(a: int) -> int {
    if a < 0 {
        -1
    } else if a > 0 {
        1
    } else {
        0
    }
}

/// Squared distance between the centers of two bodies.
pub open spec fn spec_dist_sq(bi: Body, bj: Body) -> int {
    let dx = bj.position.x - bi.position.x;
    let dy = bj.position.y - bi.position.y;
    dx * dx + dy * dy
}

/// Integer distance between the centers of two bodies (floor of the
/// real distance).
pub open spec fn spec_dist(bi: Body, bj: Body) -> int {
    sqrt_floor(spec_dist_sq(bi, bj))
}

/// Magnitude of the gravitational attraction between two bodies:
/// `g * m_i * m_j / dist_sq`, carried in fixed-point units.
pub open spec fn spec_mag(g: int, bi: Body, bj: Body) -> int {
    g * (bi.mass as int) * (bj.mass as int) * (SCALE as int) / spec_dist_sq(bi, bj)
}

/// The force the second body exerts on the first: zero for pairs at most
/// one pixel apart, otherwise the unit direction vector toward the second
/// body times the magnitude.
pub open spec fn spec_pair_force(g: int, bi: Body, bj: Body) -> (int, int) {
    let dx = bj.position.x - bi.position.x;
    let dy = bj.position.y - bi.position.y;
    if spec_dist_sq(bi, bj) <= MIN_DIST_SQ {
        (0, 0)
    } else {
        let dist = spec_dist(bi, bj);
        let mag = spec_mag(g, bi, bj);
        (sign_of(dx) * (abs_of(dx) * mag / dist), sign_of(dy) * (abs_of(dy) * mag / dist))
    }
}

/// Bodies at most one pixel apart exert no force on each other:
/// the close-pair guard leaves both accumulators untouched.
pub proof fn lemma_close_pair_no_force(g: int, bi: Body, bj: Body)
    requires
        spec_dist_sq(bi, bj) <= MIN_DIST_SQ,
    ensures
        spec_pair_force(g, bi, bj) == (0int, 0int),
{
}

/// Newton's third law: the force a pair adds to one body is the exact
/// negation of the force it adds to the other, so every pair's total
/// momentum contribution is zero.
pub proof fn lemma_pair_force_antisymmetric(g: int, bi: Body, bj: Body)
    ensures
        spec_pair_force(g, bj, bi).0 == -spec_pair_force(g, bi, bj).0,
        spec_pair_force(g, bj, bi).1 == -spec_pair_force(g, bi, bj).1,
{
    let dx = bj.position.x - bi.position.x;
    let dy = bj.position.y - bi.position.y;
    assert(spec_dist_sq(bj, bi) == spec_dist_sq(bi, bj)) by (nonlinear_arith)
        requires
            spec_dist_sq(bi, bj) == (bj.position.x - bi.position.x) * (bj.position.x
                - bi.position.x) + (bj.position.y - bi.position.y) * (bj.position.y
                - bi.position.y),
            spec_dist_sq(bj, bi) == (bi.position.x - bj.position.x) * (bi.position.x
                - bj.position.x) + (bi.position.y - bj.position.y) * (bi.position.y
                - bj.position.y),
    ;
    assert(g * (bj.mass as int) * (bi.mass as int) * (SCALE as int) == g * (bi.mass as int) * (
    bj.mass as int) * (SCALE as int)) by (nonlinear_arith);
    if spec_dist_sq(bi, bj) <= MIN_DIST_SQ {
    } else {
        let dist = spec_dist(bi, bj);
        let mag = spec_mag(g, bi, bj);
        let qx = abs_of(dx) * mag / dist;
        let qy = abs_of(dy) * mag / dist;
        assert(spec_pair_force(g, bj, bi).0 == sign_of(-dx) * qx);
        assert(sign_of(-dx) * qx == -(sign_of(dx) * qx));
        assert(sign_of(-dy) * qy == -(sign_of(dy) * qy));
    }
}

/// Facts about the pieces of a far pair's force: the distance is at
/// least one pixel, the magnitude is bounded, and each component's
/// magnitude is at most the force magnitude.
proof fn lemma_pair_force_parts(g: int, bi: Body, bj: Body)
    requires
        bi.wf(),
        bj.wf(),
        0 <= g <= GRAVITY_LIMIT,
        spec_dist_sq(bi, bj) > MIN_DIST_SQ,
    ensures
        1000 <= spec_dist(bi, bj),
        spec_dist(bi, bj) <= 40_000_000_000_000,
        0 <= spec_mag(g, bi, bj) <= FORCE_LIMIT,
        abs_of(bj.position.x - bi.position.x) <= spec_dist(bi, bj),
        abs_of(bj.position.y - bi.position.y) <= spec_dist(bi, bj),
        0 <= abs_of(bj.position.x - bi.position.x) * spec_mag(g, bi, bj) / spec_dist(bi, bj)
            <= spec_mag(g, bi, bj),
        0 <= abs_of(bj.position.y - bi.position.y) * spec_mag(g, bi, bj) / spec_dist(bi, bj)
            <= spec_mag(g, bi, bj),
{
    let dx = bj.position.x - bi.position.x;
    let dy = bj.position.y - bi.position.y;
    let d2 = spec_dist_sq(bi, bj);
    let dist = spec_dist(bi, bj);
    lemma_sqrt_floor_bracket(d2);
    assert(dist >= 1000) by (nonlinear_arith)
        requires
            d2 > 1_000_000,
            dist >= 0,
            d2 < (dist + 1) * (dist + 1),
    ;
    assert(d2 <= 800_000_000_000_000_000_000_000_000) by (nonlinear_arith)
        requires
            abs_of(dx) <= 20_000_000_000_000,
            abs_of(dy) <= 20_000_000_000_000,
            d2 == dx * dx + dy * dy,
    ;
    assert(dist <= 40_000_000_000_000) by (nonlinear_arith)
        requires
            d2 <= 800_000_000_000_000_000_000_000_000,
            dist >= 0,
            dist * dist <= d2,
    ;
    let num = g * (bi.mass as int) * (bj.mass as int) * (SCALE as int);
    assert(0 <= num <= 100_000_000_000_000_000_000) by (nonlinear_arith)
        requires
            0 <= g <= 10_000_000,
            0 < bi.mass <= 100_000,
            0 < bj.mass <= 100_000,
            num == g * (bi.mass as int) * (bj.mass as int) * 1000,
    ;
    lemma_div_pos_is_pos(num, d2);
    lemma_div_is_ordered_by_denominator(num, 1_000_000, d2);
    lemma_div_is_ordered(num, 100_000_000_000_000_000_000, 1_000_000);
    let mag = spec_mag(g, bi, bj);
    assert(mag <= FORCE_LIMIT);
    assert(abs_of(dx) * abs_of(dx) <= d2 && abs_of(dy) * abs_of(dy) <= d2) by (nonlinear_arith)
        requires
            d2 == dx * dx + dy * dy,
    ;
    assert(abs_of(dx) <= dist && abs_of(dy) <= dist) by (nonlinear_arith)
        requires
            abs_of(dx) >= 0,
            abs_of(dy) >= 0,
            dist >= 0,
            abs_of(dx) * abs_of(dx) <= d2,
            abs_of(dy) * abs_of(dy) <= d2,
            d2 < (dist + 1) * (dist + 1),
    ;
    lemma_mul_inequality(abs_of(dx), dist, mag);
    lemma_mul_inequality(abs_of(dy), dist, mag);
    lemma_div_is_ordered(abs_of(dx) * mag, dist * mag, dist);
    lemma_div_is_ordered(abs_of(dy) * mag, dist * mag, dist);
    lemma_div_multiples_vanish(mag, dist);
    assert(dist * mag == mag * dist) by (nonlinear_arith);
    lemma_div_pos_is_pos(abs_of(dx) * mag, dist);
    lemma_div_pos_is_pos(abs_of(dy) * mag, dist);
    assert(abs_of(dx) * mag >= 0 && abs_of(dy) * mag >= 0) by (nonlinear_arith)
        requires
            abs_of(dx) >= 0,
            abs_of(dy) >= 0,
            mag >= 0,
    ;
}

/// Both components of a pairwise force are bounded by `FORCE_LIMIT`.
pub proof fn lemma_pair_force_bound(g: int, bi: Body, bj: Body)
    requires
        bi.wf(),
        bj.wf(),
        0 <= g <= GRAVITY_LIMIT,
    ensures
        abs_of(spec_pair_force(g, bi, bj).0) <= FORCE_LIMIT,
        abs_of(spec_pair_force(g, bi, bj).1) <= FORCE_LIMIT,
{
    if spec_dist_sq(bi, bj) > MIN_DIST_SQ {
        lemma_pair_force_parts(g, bi, bj);
    }
}

/// Net force on body `k` from partners with index below `n` (skipping
/// `k` itself).
pub open spec fn spec_net_force_prefix(bodies: Seq<Body>, g: int, k: int, n: int) -> (int, int)
    decreases n,
{
    if n <= 0 {
        (0, 0)
    } else {
        let rest = spec_net_force_prefix(bodies, g, k, n - 1);
        if n - 1 == k {
            rest
        } else {
            let f = spec_pair_force(g, bodies[k], bodies[n - 1]);
            (rest.0 + f.0, rest.1 + f.1)
        }
    }
}

/// Net force on body `k`: the sum of the pairwise forces from every
/// other body.
pub open spec fn spec_net_force(bodies: Seq<Body>, g: int, k: int) -> (int, int) {
    spec_net_force_prefix(bodies, g, k, bodies.len() as int)
}

/// A prefix of the net-force sum is bounded by the number of summands
/// times the single-pair bound.
proof fn lemma_net_force_prefix_bound(bodies: Seq<Body>, g: int, k: int, n: int)
    requires
        forall|i: int| 0 <= i < bodies.len() ==> (#[trigger] bodies[i]).wf(),
        0 <= g <= GRAVITY_LIMIT,
        0 <= k < bodies.len(),
        0 <= n <= bodies.len(),
    ensures
        abs_of(spec_net_force_prefix(bodies, g, k, n).0) <= n * FORCE_LIMIT,
        abs_of(spec_net_force_prefix(bodies, g, k, n).1) <= n * FORCE_LIMIT,
    decreases n,
{
    if n > 0 {
        lemma_net_force_prefix_bound(bodies, g, k, n - 1);
        if n - 1 != k {
            lemma_pair_force_bound(g, bodies[k], bodies[n - 1]);
        }
    }
}

/// Sum of the forces the body at index `j` receives from the bodies at
/// indices below `m`.
pub open spec fn spec_pair_sum(bodies: Seq<Body>, g: int, m: int, j: int) -> (int, int)
    decreases m,
{
    if m <= 0 {
        (0, 0)
    } else {
        let rest = spec_pair_sum(bodies, g, m - 1, j);
        let f = spec_pair_force(g, bodies[m - 1], bodies[j]);
        (rest.0 + f.0, rest.1 + f.1)
    }
}

/// What body `j` receives from bodies below `m` cancels what those
/// bodies receive from `j`, pairwise by Newton's third law.
proof fn lemma_pair_sum_cancels_prefix(bodies: Seq<Body>, g: int, m: int, j: int)
    requires
        0 <= m <= j,
    ensures
        spec_pair_sum(bodies, g, m, j).0 + spec_net_force_prefix(bodies, g, j, m).0 == 0,
        spec_pair_sum(bodies, g, m, j).1 + spec_net_force_prefix(bodies, g, j, m).1 == 0,
    decreases m,
{
    if m > 0 {
        lemma_pair_sum_cancels_prefix(bodies, g, m - 1, j);
        lemma_pair_force_antisymmetric(g, bodies[m - 1], bodies[j]);
    }
}

/// Sum over the bodies below `m` of their net force from partners
/// below `n`.
pub open spec fn spec_prefix_force_sum(bodies: Seq<Body>, g: int, m: int, n: int) -> (int, int)
    decreases m,
{
    if m <= 0 {
        (0, 0)
    } else {
        let rest = spec_prefix_force_sum(bodies, g, m - 1, n);
        let f = spec_net_force_prefix(bodies, g, m - 1, n);
        (rest.0 + f.0, rest.1 + f.1)
    }
}

/// Admitting one more partner adds that partner's pairwise forces to the
/// summed prefixes.
proof fn lemma_prefix_force_sum_extend(bodies: Seq<Body>, g: int, m: int, n: int)
    requires
        0 <= m <= n,
    ensures
        spec_prefix_force_sum(bodies, g, m, n + 1).0 == spec_prefix_force_sum(bodies, g, m, n).0
            + spec_pair_sum(bodies, g, m, n).0,
        spec_prefix_force_sum(bodies, g, m, n + 1).1 == spec_prefix_force_sum(bodies, g, m, n).1
            + spec_pair_sum(bodies, g, m, n).1,
    decreases m,
{
    if m > 0 {
        lemma_prefix_force_sum_extend(bodies, g, m - 1, n);
    }
}

/// The summed net forces of the first `n` bodies over partners below `n`
/// vanish.
proof fn lemma_prefix_force_sum_zero(bodies: Seq<Body>, g: int, n: int)
    requires
        0 <= n,
    ensures
        spec_prefix_force_sum(bodies, g, n, n).0 == 0,
        spec_prefix_force_sum(bodies, g, n, n).1 == 0,
    decreases n,
{
    if n > 0 {
        lemma_prefix_force_sum_zero(bodies, g, n - 1);
        lemma_prefix_force_sum_extend(bodies, g, n - 1, n - 1);
        lemma_pair_sum_cancels_prefix(bodies, g, n - 1, n - 1);
    }
}

/// Sum of the net forces of the bodies below `m`.
pub open spec fn spec_total_net_force(bodies: Seq<Body>, g: int, m: int) -> (int, int)
    decreases m,
{
    if m <= 0 {
        (0, 0)
    } else {
        let rest = spec_total_net_force(bodies, g, m - 1);
        let f = spec_net_force(bodies, g, m - 1);
        (rest.0 + f.0, rest.1 + f.1)
    }
}

/// The running total of net forces is the prefix-force sum over the
/// whole population.
proof fn lemma_total_equals_prefix_sum(bodies: Seq<Body>, g: int, m: int)
    requires
        0 <= m,
    ensures
        spec_total_net_force(bodies, g, m) == spec_prefix_force_sum(bodies, g, m,
            bodies.len() as int),
    decreases m,
{
    if m > 0 {
        lemma_total_equals_prefix_sum(bodies, g, m - 1);
    }
}

/// Momentum conservation for the whole population: the internal
/// gravitational forces over all bodies sum to zero on both axes, for
/// any body set and any gravitational constant.
pub proof fn lemma_momentum_conservation(bodies: Seq<Body>, g: int)
    ensures
        spec_total_net_force(bodies, g, bodies.len() as int) == (0int, 0int),
{
    lemma_total_equals_prefix_sum(bodies, g, bodies.len() as int);
    lemma_prefix_force_sum_zero(bodies, g, bodies.len() as int);
}

/// The force the second body exerts on the first, as machine integers.
pub fn pair_force(g: i64, bi: &Body, bj: &Body) -> (f: (i64, i64))
    requires
        bi.wf(),
        bj.wf(),
        0 <= g <= GRAVITY_LIMIT,
    ensures
        f.0 == spec_pair_force(g as int, *bi, *bj).0,
        f.1 == spec_pair_force(g as int, *bi, *bj).1,
        abs_of(f.0 as int) <= FORCE_LIMIT,
        abs_of(f.1 as int) <= FORCE_LIMIT,
{
    let dx: i64 = bj.position.x - bi.position.x;
    let dy: i64 = bj.position.y - bi.position.y;
    let adx: u128 = if dx >= 0 {
        dx as u128
    } else {
        (-dx) as u128
    };
    let ady: u128 = if dy >= 0 {
        dy as u128
    } else {
        (-dy) as u128
    };
    proof {
        assert(adx == abs_of(dx as int) && ady == abs_of(dy as int));
        assert((adx as int) * (adx as int) == (dx as int) * (dx as int) && (ady as int) * (
        ady as int) == (dy as int) * (dy as int)) by (nonlinear_arith)
            requires
                adx == abs_of(dx as int),
                ady == abs_of(dy as int),
        ;
        assert((adx as int) * (adx as int) + (ady as int) * (ady as int)
            <= 800_000_000_000_000_000_000_000_000) by (nonlinear_arith)
            requires
                0 <= adx <= 20_000_000_000_000u128,
                0 <= ady <= 20_000_000_000_000u128,
        ;
    }
    let d2: u128 = adx * adx + ady * ady;
    if d2 <= MIN_DIST_SQ as u128 {
        (0, 0)
    } else {
        proof {
            lemma_pair_force_parts(g as int, *bi, *bj);
        }
        let dist: u64 = isqrt(d2);
        let c1: u128 = g as u128;
        let c2: u128 = bi.mass as u128;
        let c3: u128 = bj.mass as u128;
        let c4: u128 = SCALE as u128;
        proof {
            assert(c1 == g && c2 == bi.mass && c3 == bj.mass && c4 == SCALE);
            assert((c1 as int) * (c2 as int) <= 1_000_000_000_000int) by (nonlinear_arith)
                requires
                    c1 <= 10_000_000u128,
                    c2 <= 100_000u128,
            ;
        }
        let gm: u128 = c1 * c2;
        proof {
            assert((gm as int) * (c3 as int) <= 100_000_000_000_000_000int) by (nonlinear_arith)
                requires
                    gm <= 1_000_000_000_000u128,
                    c3 <= 100_000u128,
            ;
        }
        let gmm: u128 = gm * c3;
        proof {
            assert((gmm as int) * (c4 as int) <= 100_000_000_000_000_000_000int)
                by (nonlinear_arith)
                requires
                    gmm <= 100_000_000_000_000_000u128,
                    c4 <= 1000u128,
            ;
        }
        let num: u128 = gmm * c4;
        let mag: u128 = num / d2;
        proof {
            assert(mag == spec_mag(g as int, *bi, *bj));
            assert((adx as int) * (mag as int) <= 2_000_000_000_000_000_000_000_000_000int)
                by (nonlinear_arith)
                requires
                    0 <= adx <= 20_000_000_000_000u128,
                    0 <= mag <= 100_000_000_000_000u128,
            ;
            assert((ady as int) * (mag as int) <= 2_000_000_000_000_000_000_000_000_000int)
                by (nonlinear_arith)
                requires
                    0 <= ady <= 20_000_000_000_000u128,
                    0 <= mag <= 100_000_000_000_000u128,
            ;
        }
        let qx: u128 = adx * mag / (dist as u128);
        let qy: u128 = ady * mag / (dist as u128);
        let fx: i64 = if dx > 0 {
            qx as i64
        } else if dx < 0 {
            -(qx as i64)
        } else {
            0
        };
        let fy: i64 = if dy > 0 {
            qy as i64
        } else if dy < 0 {
            -(qy as i64)
        } else {
            0
        };
        (fx, fy)
    }
}

/// One net-force accumulator per body: every unordered pair of distinct
/// bodies is evaluated exactly once, its force added to the first body's
/// accumulator and subtracted from the second's.
pub fn compute_forces(bodies: &Vec<Body>, g: i64) -> (forces: Vec<Vec2>)
    requires
        forall|k: int| 0 <= k < bodies@.len() ==> (#[trigger] bodies@[k]).wf(),
        0 <= g <= GRAVITY_LIMIT,
        bodies@.len() <= MAX_BODIES,
    ensures
        forces@.len() == bodies@.len(),
        forall|k: int| 0 <= k < bodies@.len() ==> {
            &&& (#[trigger] forces@[k]).x == spec_net_force(bodies@, g as int, k).0
            &&& forces@[k].y == spec_net_force(bodies@, g as int, k).1
            &&& abs_of(forces@[k].x as int) <= NET_FORCE_LIMIT
            &&& abs_of(forces@[k].y as int) <= NET_FORCE_LIMIT
        },
{
    let ghost gi = g as int;
    let n = bodies.len();
    let mut forces: Vec<Vec2> = Vec::new();
    while forces.len() < n
        invariant
            forces@.len() <= n,
            forall|k: int| 0 <= k < forces@.len() ==> (#[trigger] forces@[k]).x == 0
                && forces@[k].y == 0,
        decreases n - forces@.len(),
    {
        forces.push(Vec2::zero());
    }
    let mut i: usize = 0;
    while i < n
        invariant
            n == bodies@.len(),
            forces@.len() == n,
            n <= MAX_BODIES,
            0 <= g <= GRAVITY_LIMIT,
            gi == g as int,
            forall|k: int| 0 <= k < n ==> (#[trigger] bodies@[k]).wf(),
            i <= n,
            forall|k: int| 0 <= k < i ==> (#[trigger] forces@[k]).x == spec_net_force(bodies@,
                gi, k).0 && forces@[k].y == spec_net_force(bodies@, gi, k).1,
            forall|k: int| i <= k < n ==> (#[trigger] forces@[k]).x == spec_net_force_prefix(
                bodies@, gi, k, i as int).0 && forces@[k].y == spec_net_force_prefix(bodies@, gi,
                k, i as int).1,
        decreases n - i,
    {
        let mut j: usize = i + 1;
        while j < n
            invariant
                n == bodies@.len(),
                forces@.len() == n,
                n <= MAX_BODIES,
                0 <= g <= GRAVITY_LIMIT,
                gi == g as int,
                forall|k: int| 0 <= k < n ==> (#[trigger] bodies@[k]).wf(),
                i < n,
                i + 1 <= j <= n,
                forall|k: int| 0 <= k < i ==> (#[trigger] forces@[k]).x == spec_net_force(
                    bodies@, gi, k).0 && forces@[k].y == spec_net_force(bodies@, gi, k).1,
                forces@[i as int].x == spec_net_force_prefix(bodies@, gi, i as int, j as int).0,
                forces@[i as int].y == spec_net_force_prefix(bodies@, gi, i as int, j as int).1,
                forall|k: int| i < k < j ==> (#[trigger] forces@[k]).x == spec_net_force_prefix(
                    bodies@, gi, k, i + 1).0 && forces@[k].y == spec_net_force_prefix(bodies@,
                    gi, k, i + 1).1,
                forall|k: int| j <= k < n ==> (#[trigger] forces@[k]).x == spec_net_force_prefix(
                    bodies@, gi, k, i as int).0 && forces@[k].y == spec_net_force_prefix(bodies@,
                    gi, k, i as int).1,
            decreases n - j,
        {
            let body_i = bodies[i];
            let body_j = bodies[j];
            let (fx, fy) = pair_force(g, &body_i, &body_j);
            proof {
                lemma_net_force_prefix_bound(bodies@, gi, i as int, j as int);
                lemma_net_force_prefix_bound(bodies@, gi, j as int, i as int);
                lemma_pair_force_antisymmetric(gi, bodies@[i as int], bodies@[j as int]);
                assert((j as int) * FORCE_LIMIT + FORCE_LIMIT <= NET_FORCE_LIMIT);
                assert((i as int) * FORCE_LIMIT + FORCE_LIMIT <= NET_FORCE_LIMIT);
            }
            let fi = forces[i];
            forces[i] = Vec2 { x: fi.x + fx, y: fi.y + fy };
            let fj = forces[j];
            forces[j] = Vec2 { x: fj.x - fx, y: fj.y - fy };
            j += 1;
        }
        i += 1;
    }
    proof {
        assert forall|k: int| 0 <= k < bodies@.len() implies abs_of(forces@[k].x as int)
            <= NET_FORCE_LIMIT && abs_of(forces@[k].y as int) <= NET_FORCE_LIMIT by {
            lemma_net_force_prefix_bound(bodies@, gi, k, bodies@.len() as int);
            assert((bodies@.len() as int) * FORCE_LIMIT <= NET_FORCE_LIMIT);
        }
    }
    forces
}

} // verus!
