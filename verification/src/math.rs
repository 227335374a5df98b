//! Integer helpers shared by the physics core: absolute value, clamping,
//! truncating division and an exact integer square root.

use vstd::prelude::*;
use vstd::arithmetic::div_mod::{
    lemma_div_basics, lemma_div_nonincreasing, lemma_div_pos_is_pos,
};

verus! {

/// Absolute value of a mathematical integer.
pub open spec fn abs_of(a: int) -> int {
    if a < 0 {
        -a
    } else {
        a
    }
}

/// Clamp `x` into the interval `[lo, hi]`.
pub open spec fn clamp(x: int, lo: int, hi: int) -> int
    recommends
        lo <= hi,
{
    if x < lo {
        lo
    } else if x > hi {
        hi
    } else {
        x
    }
}

/// Quotient of `a` by a positive `d`, rounded toward zero.
pub open spec fn tdiv(a: int, d: int) -> int
    recommends
        d > 0,
{
    if a >= 0 {
        a / d
    } else {
        -((-a) / d)
    }
}

/// Truncating division shrinks magnitudes and keeps signs.
pub proof fn lemma_tdiv_bounds(a: int, d: int)
    requires
        d >= 1,
    ensures
        abs_of(tdiv(a, d)) <= abs_of(a),
        a >= 0 ==> tdiv(a, d) >= 0,
        a <= 0 ==> tdiv(a, d) <= 0,
{
    if a >= 0 {
        lemma_div_nonincreasing(a, d);
        lemma_div_pos_is_pos(a, d);
    } else {
        lemma_div_nonincreasing(-a, d);
        lemma_div_pos_is_pos(-a, d);
    }
}

/// Largest non-negative integer whose square does not exceed `x`
/// (0 when `x` is negative).
pub open spec fn sqrt_floor(x: int) -> int
    decreases x,
{
    if x <= 0 {
        0
    } else {
        let r = sqrt_floor(x - 1);
        if (r + 1) * (r + 1) <= x {
            r + 1
        } else {
            r
        }
    }
}

/// `sqrt_floor(x)` is the floor of the real square root: its square is at
/// most `x` and the next square is beyond `x`.
pub proof fn lemma_sqrt_floor_bracket(x: int)
    requires
        x >= 0,
    ensures
        0 <= sqrt_floor(x),
        sqrt_floor(x) * sqrt_floor(x) <= x,
        x < (sqrt_floor(x) + 1) * (sqrt_floor(x) + 1),
    decreases x,
{
    if x > 0 {
        lemma_sqrt_floor_bracket(x - 1);
        let r = sqrt_floor(x - 1);
        if (r + 1) * (r + 1) <= x {
            assert(x < (r + 2) * (r + 2)) by (nonlinear_arith)
                requires
                    x - 1 < (r + 1) * (r + 1),
                    r >= 0,
            ;
        }
    }
}

/// Any integer satisfying the square-root bracket is `sqrt_floor`.
pub proof fn lemma_sqrt_floor_unique(x: int, r: int)
    requires
        0 <= r,
        r * r <= x,
        x < (r + 1) * (r + 1),
    ensures
        r == sqrt_floor(x),
{
    assert(x >= 0) by (nonlinear_arith)
        requires
            0 <= r,
            r * r <= x,
    ;
    lemma_sqrt_floor_bracket(x);
    let s = sqrt_floor(x);
    if r < s {
        assert((r + 1) * (r + 1) <= s * s) by (nonlinear_arith)
            requires
                0 <= r,
                r < s,
        ;
    } else if s < r {
        assert((s + 1) * (s + 1) <= r * r) by (nonlinear_arith)
            requires
                0 <= s,
                s < r,
        ;
    }
}

/// A square root below a bound has a bounded argument, and conversely.
pub proof fn lemma_sqrt_floor_upper(x: int, b: int)
    requires
        0 <= x,
        0 <= b,
        x < b * b,
    ensures
        sqrt_floor(x) < b,
{
    lemma_sqrt_floor_bracket(x);
    let s = sqrt_floor(x);
    if s >= b {
        assert(b * b <= s * s) by (nonlinear_arith)
            requires
                0 <= b,
                b <= s,
        ;
    }
}

/// Largest argument the integer square root accepts.
pub const DIST_SQ_LIMIT: u128 = 1_000_000_000_000_000_000_000_000_000;

/// Integer square root by bisection.
pub fn isqrt(x: u128) -> (r: u64)
    requires
        x <= DIST_SQ_LIMIT,
    ensures
        r == sqrt_floor(x as int),
        r <= 40_000_000_000_000u64,
{
    let mut lo: u128 = 0;
    let mut hi: u128 = 40_000_000_000_000;
    proof {
        assert((40_000_000_000_000int) * 40_000_000_000_000 == 1_600_000_000_000_000_000_000_000_000int)
            by (nonlinear_arith);
    }
    while lo + 1 < hi
        invariant
            x <= DIST_SQ_LIMIT,
            lo < hi <= 40_000_000_000_000u128,
            (lo as int) * (lo as int) <= x as int,
            (x as int) < (hi as int) * (hi as int),
        decreases hi - lo,
    {
        let mid = lo + (hi - lo) / 2;
        proof {
            assert((mid as int) * (mid as int) <= 1_600_000_000_000_000_000_000_000_000int)
                by (nonlinear_arith)
                requires
                    mid <= 40_000_000_000_000u128,
            ;
        }
        if mid * mid <= x {
            lo = mid;
        } else {
            hi = mid;
        }
    }
    proof {
        lemma_sqrt_floor_unique(x as int, lo as int);
    }
    lo as u64
}

/// Truncating division of an `i128` by a positive divisor, exactly
/// matching [`tdiv`].
pub fn tdiv_i128(a: i128, d: i128) -> (r: i128)
    requires
        d > 0,
        a > i128::MIN,
    ensures
        r as int == tdiv(a as int, d as int),
        abs_of(r as int) <= abs_of(a as int),
{
    proof {
        lemma_tdiv_bounds(a as int, d as int);
        lemma_div_basics(d as int);
    }
    if a >= 0 {
        ((a as u128) / (d as u128)) as i128
    } else {
        -(((-a) as u128 / (d as u128)) as i128)
    }
}

} // verus!
