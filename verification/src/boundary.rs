//! The boundary resolver: after integration each body is checked against
//! the four viewport edges in a fixed order (low x, high x, low y,
//! high y). A body whose rim crossed an edge is clamped back onto it and
//! the velocity component on that axis is negated — an exact, elastic
//! reflection with no restitution loss.

use vstd::prelude::*;
use crate::body::Body;
use crate::limits::VIEW_LIMIT;
use crate::math::abs_of;
use crate::vec2::Vec2;

verus! {

/// One axis after boundary resolution: first the low edge is checked,
/// then the high edge, each clamping the coordinate and negating the
/// velocity. Returns (position, velocity) for that axis.
pub open spec fn spec_resolve_axis(p: int, v: int, r: int, limit: int) -> (int, int) {
    let p_low = if p - r < 0 {
        r
    } else {
        p
    };
    let v_low = if p - r < 0 {
        -v
    } else {
        v
    };
    if p_low + r > limit {
        (limit - r, -v_low)
    } else {
        (p_low, v_low)
    }
}

/// Containment: whenever the body fits the viewport at all, its resolved
/// coordinate keeps the whole circle inside `[0, limit]`.
pub proof fn lemma_resolve_axis_contains(p: int, v: int, r: int, limit: int)
    requires
        0 <= r,
        2 * r <= limit,
    ensures
        r <= spec_resolve_axis(p, v, r, limit).0 <= limit - r,
{
}

/// Reflection at the low edge: a body that crossed it is placed exactly
/// on the edge and its velocity component is negated, magnitude
/// unchanged.
pub proof fn lemma_low_edge_reflection(p: int, v: int, r: int, limit: int)
    requires
        p < r,
        2 * r <= limit,
    ensures
        spec_resolve_axis(p, v, r, limit) == (r, -v),
{
}

/// Reflection at the high edge: a body that crossed it alone is placed
/// exactly on it and its velocity component is negated.
pub proof fn lemma_high_edge_reflection(p: int, v: int, r: int, limit: int)
    requires
        p >= r,
        p + r > limit,
    ensures
        spec_resolve_axis(p, v, r, limit) == (limit - r, -v),
{
}

/// Reflection is elastic: resolution never changes the magnitude of a
/// velocity component, only possibly its sign.
pub proof fn lemma_reflection_elastic(p: int, v: int, r: int, limit: int)
    ensures
        abs_of(spec_resolve_axis(p, v, r, limit).1) == abs_of(v),
{
}

/// A body already inside the viewport is left untouched.
pub proof fn lemma_inside_unchanged(p: int, v: int, r: int, limit: int)
    requires
        r <= p,
        p + r <= limit,
    ensures
        spec_resolve_axis(p, v, r, limit) == (p, v),
{
}

/// Resolve both axes of one body against the viewport in place. Mass,
/// radius and color are untouched.
pub fn resolve_bounds(b: &mut Body, width: i64, height: i64)
    requires
        old(b).wf(),
        0 <= width <= VIEW_LIMIT,
        0 <= height <= VIEW_LIMIT,
    ensures
        final(b).wf(),
        final(b).position.x == spec_resolve_axis(old(b).position.x as int,
            old(b).velocity.x as int, old(b).radius as int, width as int).0,
        final(b).velocity.x == spec_resolve_axis(old(b).position.x as int,
            old(b).velocity.x as int, old(b).radius as int, width as int).1,
        final(b).position.y == spec_resolve_axis(old(b).position.y as int,
            old(b).velocity.y as int, old(b).radius as int, height as int).0,
        final(b).velocity.y == spec_resolve_axis(old(b).position.y as int,
            old(b).velocity.y as int, old(b).radius as int, height as int).1,
        final(b).mass == old(b).mass,
        final(b).radius == old(b).radius,
        final(b).color == old(b).color,
        2 * old(b).radius <= width ==> old(b).radius <= final(b).position.x <= width - old(
            b).radius,
        2 * old(b).radius <= height ==> old(b).radius <= final(b).position.y <= height - old(
            b).radius,
{
    let r = b.radius;
    let mut px = b.position.x;
    let mut vx = b.velocity.x;
    let mut py = b.position.y;
    let mut vy = b.velocity.y;
    if px - r < 0 {
        px = r;
        vx = -vx;
    }
    if px + r > width {
        px = width - r;
        vx = -vx;
    }
    if py - r < 0 {
        py = r;
        vy = -vy;
    }
    if py + r > height {
        py = height - r;
        vy = -vy;
    }
    b.position = Vec2 { x: px, y: py };
    b.velocity = Vec2 { x: vx, y: vy };
}

} // verus!
