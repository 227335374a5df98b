//! The integrator: advances one body's velocity and position for an
//! elapsed time `dt` from its precomputed net force.
//!
//! The velocity gains `force / mass * dt` and is then damped by a fixed
//! factor of 99/100 per frame (deliberately independent of `dt`); the
//! position advances by the pre-update velocity times `dt`. Both results
//! are clamped to the machine bounds, which concrete simulations never
//! reach.

use vstd::prelude::*;
use vstd::arithmetic::div_mod::{lemma_div_is_ordered, lemma_div_pos_is_pos};
use crate::body::Body;
use crate::limits::{DT_LIMIT, NET_FORCE_LIMIT, POS_LIMIT, SCALE, VEL_LIMIT, VIEW_LIMIT};
use crate::math::{abs_of, clamp, tdiv, tdiv_i128};
use crate::vec2::Vec2;

verus! {

/// The damping factor applied to every velocity component each frame,
/// as a ratio of integers: `DAMP_NUM / DAMP_DEN` = 0.99.
pub const DAMP_NUM: i64 = 99;

/// Denominator of the damping ratio.
pub const DAMP_DEN: i64 = 100;

/// One velocity component after a frame: the old component plus
/// `force / mass * dt`, damped by 99/100 and clamped to the machine
/// bound.
pub open spec fn spec_new_velocity_axis(v: int, f: int, dt: int, m: int) -> int
    recommends
        m > 0,
{
    clamp(tdiv((v + tdiv(f * dt, m)) * (DAMP_NUM as int), DAMP_DEN as int), -VEL_LIMIT as int,
        VEL_LIMIT as int)
}

/// One position component after a frame: the old component displaced by
/// the pre-update velocity times `dt`, clamped to the machine bound.
pub open spec fn spec_new_position_axis(p: int, v: int, dt: int) -> int {
    clamp(p + tdiv(v * dt, SCALE as int), -POS_LIMIT as int, POS_LIMIT as int)
}

/// For a coordinate inside any admissible viewport the machine clamp is
/// inert: the new position is exactly the old one displaced by the
/// pre-update velocity times `dt`.
pub proof fn lemma_position_update_unclamped(p: int, v: int, dt: int)
    requires
        -VIEW_LIMIT <= p <= VIEW_LIMIT,
        -VEL_LIMIT <= v <= VEL_LIMIT,
        0 <= dt <= DT_LIMIT,
    ensures
        spec_new_position_axis(p, v, dt) == p + tdiv(v * dt, SCALE as int),
{
    let prod = v * dt;
    assert(-1_000_000_000_000_000 <= prod <= 1_000_000_000_000_000) by (nonlinear_arith)
        requires
            -1_000_000_000 <= v <= 1_000_000_000,
            0 <= dt <= 1_000_000,
            prod == v * dt,
    ;
    if prod >= 0 {
        lemma_div_is_ordered(prod, 1_000_000_000_000_000, 1000);
        lemma_div_pos_is_pos(prod, 1000);
    } else {
        lemma_div_is_ordered(-prod, 1_000_000_000_000_000, 1000);
        lemma_div_pos_is_pos(-prod, 1000);
    }
}

/// Advance one body's velocity and position in place. Mass, radius and
/// color are untouched; the displacement uses the pre-update velocity.
pub fn integrate_body(b: &mut Body, f: Vec2, dt: i64)
    requires
        old(b).wf(),
        abs_of(f.x as int) <= NET_FORCE_LIMIT,
        abs_of(f.y as int) <= NET_FORCE_LIMIT,
        0 <= dt <= DT_LIMIT,
    ensures
        final(b).wf(),
        final(b).velocity.x == spec_new_velocity_axis(old(b).velocity.x as int, f.x as int,
            dt as int, old(b).mass as int),
        final(b).velocity.y == spec_new_velocity_axis(old(b).velocity.y as int, f.y as int,
            dt as int, old(b).mass as int),
        final(b).position.x == spec_new_position_axis(old(b).position.x as int,
            old(b).velocity.x as int, dt as int),
        final(b).position.y == spec_new_position_axis(old(b).position.y as int,
            old(b).velocity.y as int, dt as int),
        final(b).mass == old(b).mass,
        final(b).radius == old(b).radius,
        final(b).color == old(b).color,
{
    let vx_old = b.velocity.x;
    let vy_old = b.velocity.y;
    proof {
        assert((f.x as int) * (dt as int) <= 1_000_000_000_000_000_000_000_000int && (f.x as int)
            * (dt as int) >= -1_000_000_000_000_000_000_000_000int) by (nonlinear_arith)
            requires
                abs_of(f.x as int) <= 1_000_000_000_000_000_000int,
                0 <= dt <= 1_000_000,
        ;
        assert((f.y as int) * (dt as int) <= 1_000_000_000_000_000_000_000_000int && (f.y as int)
            * (dt as int) >= -1_000_000_000_000_000_000_000_000int) by (nonlinear_arith)
            requires
                abs_of(f.y as int) <= 1_000_000_000_000_000_000int,
                0 <= dt <= 1_000_000,
        ;
        assert((vx_old as int) * (dt as int) <= 1_000_000_000_000_000int && (vx_old as int) * (
        dt as int) >= -1_000_000_000_000_000int) by (nonlinear_arith)
            requires
                -1_000_000_000 <= vx_old <= 1_000_000_000,
                0 <= dt <= 1_000_000,
        ;
        assert((vy_old as int) * (dt as int) <= 1_000_000_000_000_000int && (vy_old as int) * (
        dt as int) >= -1_000_000_000_000_000int) by (nonlinear_arith)
            requires
                -1_000_000_000 <= vy_old <= 1_000_000_000,
                0 <= dt <= 1_000_000,
        ;
    }
    let dvx: i128 = tdiv_i128((f.x as i128) * (dt as i128), b.mass as i128);
    let dvy: i128 = tdiv_i128((f.y as i128) * (dt as i128), b.mass as i128);
    let tx: i128 = (vx_old as i128) + dvx;
    let ty: i128 = (vy_old as i128) + dvy;
    proof {
        assert(abs_of(dvx as int) <= 1_000_000_000_000_000_000_000_000int);
        assert(abs_of(dvy as int) <= 1_000_000_000_000_000_000_000_000int);
        assert(-2_000_000_000_000_000_000_000_000 <= tx <= 2_000_000_000_000_000_000_000_000);
        assert(-2_000_000_000_000_000_000_000_000 <= ty <= 2_000_000_000_000_000_000_000_000);
        assert(-200_000_000_000_000_000_000_000_000int <= (tx as int) * (DAMP_NUM as int)
            <= 200_000_000_000_000_000_000_000_000int) by (nonlinear_arith)
            requires
                -2_000_000_000_000_000_000_000_000 <= tx <= 2_000_000_000_000_000_000_000_000,
                0 <= (DAMP_NUM as int) <= 100,
        ;
        assert(-200_000_000_000_000_000_000_000_000int <= (ty as int) * (DAMP_NUM as int)
            <= 200_000_000_000_000_000_000_000_000int) by (nonlinear_arith)
            requires
                -2_000_000_000_000_000_000_000_000 <= ty <= 2_000_000_000_000_000_000_000_000,
                0 <= (DAMP_NUM as int) <= 100,
        ;
    }
    let vx_damped: i128 = tdiv_i128(tx * (DAMP_NUM as i128), DAMP_DEN as i128);
    let vy_damped: i128 = tdiv_i128(ty * (DAMP_NUM as i128), DAMP_DEN as i128);
    let nvx: i64 = if vx_damped < -(VEL_LIMIT as i128) {
        -VEL_LIMIT
    } else if vx_damped > VEL_LIMIT as i128 {
        VEL_LIMIT
    } else {
        vx_damped as i64
    };
    let nvy: i64 = if vy_damped < -(VEL_LIMIT as i128) {
        -VEL_LIMIT
    } else if vy_damped > VEL_LIMIT as i128 {
        VEL_LIMIT
    } else {
        vy_damped as i64
    };
    let dpx: i128 = tdiv_i128((vx_old as i128) * (dt as i128), SCALE as i128);
    let dpy: i128 = tdiv_i128((vy_old as i128) * (dt as i128), SCALE as i128);
    let px_wide: i128 = (b.position.x as i128) + dpx;
    let py_wide: i128 = (b.position.y as i128) + dpy;
    let npx: i64 = if px_wide < -(POS_LIMIT as i128) {
        -POS_LIMIT
    } else if px_wide > POS_LIMIT as i128 {
        POS_LIMIT
    } else {
        px_wide as i64
    };
    let npy: i64 = if py_wide < -(POS_LIMIT as i128) {
        -POS_LIMIT
    } else if py_wide > POS_LIMIT as i128 {
        POS_LIMIT
    } else {
        py_wide as i64
    };
    b.velocity = Vec2 { x: nvx, y: nvy };
    b.position = Vec2 { x: npx, y: npy };
}

} // verus!
