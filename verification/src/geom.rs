//! Plain integer geometry and bounded arithmetic for the simulation core.
//!
//! Positions and velocities are whole playfield units; time is integer
//! milliseconds.  Every quantity the core keeps is held inside fixed limits
//! (`POS_LIMIT`, `VEL_LIMIT`, ...) so that all frame arithmetic provably fits
//! in `i64`; values that drift past a limit are clamped defensively.

use vstd::arithmetic::div_mod::{
    lemma_div_is_ordered, lemma_div_multiples_vanish, lemma_div_nonincreasing,
    lemma_div_pos_is_pos,
};
use vstd::prelude::*;

verus! {

/// Playfield positions stay within `[-POS_LIMIT, POS_LIMIT]` per axis.
pub const POS_LIMIT: i64 = 1_000_000_000;

/// Velocities stay within `[-VEL_LIMIT, VEL_LIMIT]` per axis.
pub const VEL_LIMIT: i64 = 1_000_000_000;

/// Circle radii stay within `[0, RADIUS_LIMIT]`.
pub const RADIUS_LIMIT: i64 = 1_000_000;

/// Largest elapsed time one frame may report, in milliseconds.
pub const DT_MAX: i64 = 60_000;

/// Milliseconds per second: the divisor when applying per-second rates.
pub const MS_PER_S: i64 = 1000;

/// A point or displacement in the playfield, in whole units.  The y axis
/// grows downward, as on the screen.
#[derive(Clone, Copy, Debug, PartialEq, Eq, Structural)]
pub struct Vec2 {
    pub x: i64,
    pub y: i64,
}

/// The playfield size, queried live each frame (it may be resized).
#[derive(Clone, Copy, Debug, PartialEq, Eq, Structural)]
pub struct Screen {
    pub width: i64,
    pub height: i64,
}

pub open spec fn in_range(v: int, limit: int) -> bool {
    -limit <= v <= limit
}

pub open spec fn screen_wf(sc: Screen) -> bool {
    &&& 0 <= sc.width <= POS_LIMIT
    &&& 0 <= sc.height <= POS_LIMIT
}

pub open spec fn spec_clamp(v: int, lo: int, hi: int) -> int {
    if v < lo {
        lo
    } else if v > hi {
        hi
    } else {
        v
    }
}

/// Clamp `v` into `[lo, hi]`.
pub fn clamp_i64(v: i64, lo: i64, hi: i64) -> (r: i64)
    requires
        lo <= hi,
    ensures
        r == spec_clamp(v as int, lo as int, hi as int),
{
    if v < lo {
        lo
    } else if v > hi {
        hi
    } else {
        v
    }
}

/// `a * num / den` with the quotient truncated toward zero, as Rust's `/`
/// truncates: the scaling step for per-second rates and blend factors.
pub open spec fn spec_mul_div(a: int, num: int, den: int) -> int {
    if a >= 0 {
        a * num / den
    } else {
        -((-a) * num / den)
    }
}

/// Scale `a` by the ratio `num / den`, truncating toward zero.
pub fn mul_div(a: i64, num: i64, den: i64) -> (r: i64)
    requires
        in_range(a as int, 3_000_000_000),
        0 <= num <= 3_000_000_000,
        0 < den,
    ensures
        r == spec_mul_div(a as int, num as int, den as int),
{
    proof {
        lemma_mul_div_range(a as int, num as int, den as int);
    }
    if a >= 0 {
        (a * num) / den
    } else {
        -(((-a) * num) / den)
    }
}

/// The products and quotients inside `spec_mul_div` stay within `i64` for
/// the admitted argument ranges.
proof fn lemma_mul_div_range(a: int, num: int, den: int)
    requires
        in_range(a, 3_000_000_000),
        0 <= num <= 3_000_000_000,
        0 < den,
    ensures
        a >= 0 ==> 0 <= a * num <= 9_000_000_000_000_000_000,
        a >= 0 ==> 0 <= a * num / den <= a * num,
        a < 0 ==> 0 <= (-a) * num <= 9_000_000_000_000_000_000,
        a < 0 ==> 0 <= (-a) * num / den <= (-a) * num,
{
    assert(a >= 0 ==> 0 <= a * num <= 9_000_000_000_000_000_000) by (nonlinear_arith)
        requires
            -3_000_000_000 <= a <= 3_000_000_000,
            0 <= num <= 3_000_000_000,
    ;
    assert(a < 0 ==> 0 <= (-a) * num <= 9_000_000_000_000_000_000) by (nonlinear_arith)
        requires
            -3_000_000_000 <= a <= 3_000_000_000,
            0 <= num <= 3_000_000_000,
    ;
    if a >= 0 {
        lemma_div_pos_is_pos(a * num, den);
        lemma_div_nonincreasing(a * num, den);
    } else {
        lemma_div_pos_is_pos((-a) * num, den);
        lemma_div_nonincreasing((-a) * num, den);
    }
}

/// If `|a| * num <= bound * den`, the scaled value stays within `bound`:
/// used to carry velocity and displacement limits through `mul_div`.
pub proof fn lemma_mul_div_abs_le(a: int, num: int, den: int, bound: int)
    requires
        0 <= num,
        0 < den,
        0 <= bound,
        a >= 0 ==> a * num <= bound * den,
        a < 0 ==> (-a) * num <= bound * den,
    ensures
        -bound <= spec_mul_div(a, num, den) <= bound,
{
    assert(bound * den == den * bound) by (nonlinear_arith);
    lemma_div_multiples_vanish(bound, den);
    if a >= 0 {
        lemma_div_pos_is_pos(a * num, den);
        lemma_div_is_ordered(a * num, bound * den, den);
    } else {
        lemma_div_pos_is_pos((-a) * num, den);
        lemma_div_is_ordered((-a) * num, bound * den, den);
    }
}

/// The integer square root: the largest `r` with `r * r <= n`.
pub fn isqrt(n: u64) -> (r: u64)
    ensures
        r * r <= n < (r + 1) * (r + 1),
{
    let mut lo: u64 = 0;
    let mut hi: u64 = 0xFFFF_FFFF;
    proof {
        assert((0xFFFF_FFFFu64 + 1) * (0xFFFF_FFFFu64 + 1) > u64::MAX as int) by (nonlinear_arith);
    }
    while lo < hi
        invariant
            lo <= hi <= 0xFFFF_FFFF,
            lo * lo <= n,
            n < (hi + 1) * (hi + 1),
        decreases hi - lo,
    {
        let mid: u64 = lo + (hi - lo + 1) / 2;
        assert(lo < mid <= hi);
        proof {
            assert((mid as int) * (mid as int) <= 0xFFFF_FFFF_FFFF_FFFF) by (nonlinear_arith)
                requires
                    0 <= mid <= 0xFFFF_FFFFu64,
            ;
        }
        let sq: u128 = (mid as u128) * (mid as u128);
        if sq <= n as u128 {
            lo = mid;
        } else {
            hi = mid - 1;
        }
    }
    lo
}

} // verus!
