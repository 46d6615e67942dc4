//! Angles in fixed-point radians, and the sine and cosine of them.
//!
//! The sine is Bhaskara's rational approximation, which is exact at every
//! quarter turn and stays within two thousandths of the true sine between.

use vstd::prelude::*;
use vstd::arithmetic::div_mod::lemma_fundamental_div_mod_converse;
use crate::fixed::{abs, magnitude, round_div, rounded, Fixed, ONE};

verus! {

/// A quarter of a turn, in raw radians.
pub const QUARTER_TURN: i64 = 1_570_796;

/// Half a turn: twice `QUARTER_TURN`.
pub const HALF_TURN: i64 = 3_141_592;

/// A whole turn: four times `QUARTER_TURN`.
pub const FULL_TURN: i64 = 6_283_184;

/// The angle in `[0, FULL_TURN)` that points the same way as `a`.
pub open spec fn spec_reduce(a: int) -> int {
    a % (FULL_TURN as int)
}

/// The sine of an angle `x` of the first half turn, `0 <= x <= HALF_TURN`.
pub open spec fn sin_arc(x: int) -> int {
    let p = x * (HALF_TURN - x);
    round_div(16 * p * ONE, 5 * HALF_TURN * HALF_TURN - 4 * p)
}

/// The sine of any angle.
pub open spec fn spec_sin(a: int) -> int {
    let r = spec_reduce(a);
    if r <= HALF_TURN {
        sin_arc(r)
    } else {
        -sin_arc(r - HALF_TURN)
    }
}

/// The cosine of any angle: the sine a quarter turn further on.
pub open spec fn spec_cos(a: int) -> int {
    spec_sin(spec_reduce(a) + QUARTER_TURN)
}

/// Within the first half turn the sine lies between zero and one.
pub proof fn lemma_sin_arc_range(x: int)
    requires
        0 <= x <= HALF_TURN,
    ensures
        0 <= sin_arc(x) <= ONE,
        0 <= x * (HALF_TURN - x),
        4 * (x * (HALF_TURN - x)) <= HALF_TURN * HALF_TURN,
{
    let h = HALF_TURN as int;
    let p = x * (h - x);
    assert(0 <= p && 4 * p <= h * h) by (nonlinear_arith)
        requires
            0 <= x <= h,
            p == x * (h - x),
    ;
    let n = 16 * p * ONE;
    let d = 5 * h * h - 4 * p;
    assert(h * h == 9_869_600_294_464int) by (nonlinear_arith)
        requires
            h == 3_141_592,
    ;
    assert(d > 0 && 0 <= n <= ONE * d);
    assert(0 <= (n + d / 2) / d <= ONE) by (nonlinear_arith)
        requires
            d > 0,
            0 <= n <= ONE * d,
    ;
}

/// The sine of every angle lies between minus one and one.
pub proof fn lemma_sin_range(a: int)
    ensures
        -ONE <= spec_sin(a) <= ONE,
{
    let r = spec_reduce(a);
    if r <= HALF_TURN {
        lemma_sin_arc_range(r);
    } else {
        lemma_sin_arc_range(r - HALF_TURN);
    }
}

/// The cosine of every angle lies between minus one and one.
pub proof fn lemma_cos_range(a: int)
    ensures
        -ONE <= spec_cos(a) <= ONE,
{
    lemma_sin_range(spec_reduce(a) + QUARTER_TURN);
}

/// Strictly inside the first half turn the sine is more than zero.
pub proof fn lemma_sin_arc_positive(x: int)
    requires
        0 < x < HALF_TURN,
    ensures
        sin_arc(x) > 0,
{
    let h = HALF_TURN as int;
    let p = x * (h - x);
    assert(p >= h - 1) by (nonlinear_arith)
        requires
            1 <= x <= h - 1,
            p == x * (h - x),
    ;
    lemma_sin_arc_range(x);
    let n = 16 * p * ONE;
    let d = 5 * h * h - 4 * p;
    assert(h * h == 9_869_600_294_464int) by (nonlinear_arith)
        requires
            h == 3_141_592,
    ;
    assert(d > 0 && n >= d);
    assert((n + d / 2) / d >= 1) by (nonlinear_arith)
        requires
            d > 0,
            n >= d,
    ;
}

/// At a quarter turn the sine is exactly one.
pub proof fn lemma_sin_arc_quarter()
    ensures
        sin_arc(QUARTER_TURN as int) == ONE,
{
    let q = QUARTER_TURN as int;
    let h = HALF_TURN as int;
    let p = q * (h - q);
    assert(p == 2_467_400_073_616int) by (nonlinear_arith)
        requires
            p == q * (h - q),
            q == 1_570_796,
            h == 3_141_592,
    ;
    assert(h * h == 9_869_600_294_464int) by (nonlinear_arith)
        requires
            h == 3_141_592,
    ;
    let n = 16 * p * ONE;
    let d = 5 * h * h - 4 * p;
    assert(d == 39_478_401_177_856int);
    assert(n == 39_478_401_177_856_000_000int);
    assert((n + d / 2) / d == 1_000_000);
}

/// Sine and cosine are never zero at the same angle.
pub proof fn lemma_unit_nonzero(a: int)
    ensures
        spec_cos(a) != 0 || spec_sin(a) != 0,
        -ONE <= spec_cos(a) <= ONE,
        -ONE <= spec_sin(a) <= ONE,
{
    lemma_sin_range(a);
    lemma_cos_range(a);
    let r = spec_reduce(a);
    lemma_sin_arc_quarter();
    if spec_sin(a) == 0 {
        if 0 < r < HALF_TURN {
            lemma_sin_arc_positive(r);
        } else if HALF_TURN < r {
            lemma_sin_arc_positive(r - HALF_TURN);
        }
        assert(r == 0 || r == HALF_TURN);
        assert(spec_reduce(r + QUARTER_TURN) == r + QUARTER_TURN);
    }
}

/// Brings an angle into `[0, FULL_TURN)`.
pub fn reduce(a: Fixed) -> (r: Fixed)
    ensures
        r == spec_reduce(a as int),
        0 <= r < FULL_TURN,
{
    let turn: u64 = FULL_TURN as u64;
    let m: u64 = magnitude(a) % turn;
    let q: Ghost<int> = Ghost(abs(a as int) / (turn as int));
    if a >= 0 || m == 0 {
        proof {
            if a >= 0 {
                lemma_fundamental_div_mod_converse(a as int, turn as int, q@, m as int);
            } else {
                lemma_fundamental_div_mod_converse(a as int, turn as int, -q@, 0);
            }
        }
        m as i64
    } else {
        proof {
            lemma_fundamental_div_mod_converse(
                a as int,
                turn as int,
                -q@ - 1,
                turn as int - m as int,
            );
        }
        (turn - m) as i64
    }
}

/// The sine within the first half turn.
fn sine_arc(x: Fixed) -> (r: Fixed)
    requires
        0 <= x <= HALF_TURN,
    ensures
        r == sin_arc(x as int),
        0 <= r <= ONE,
{
    proof {
        lemma_sin_arc_range(x as int);
    }
    let p: i128 = (x as i128) * ((HALF_TURN - x) as i128);
    let half: i128 = HALF_TURN as i128;
    assert(half * half == 9_869_600_294_464int) by (nonlinear_arith)
        requires
            half == 3_141_592,
    ;
    let n: i128 = 16 * p * (ONE as i128);
    let d: i128 = 5 * half * half - 4 * p;
    rounded(n, d as u64)
}

/// The sine of `a`.
pub fn sine(a: Fixed) -> (r: Fixed)
    ensures
        r == spec_sin(a as int),
        -ONE <= r <= ONE,
{
    let t: i64 = reduce(a);
    if t <= HALF_TURN {
        sine_arc(t)
    } else {
        -sine_arc(t - HALF_TURN)
    }
}

/// The cosine of `a`.
pub fn cosine(a: Fixed) -> (r: Fixed)
    ensures
        r == spec_cos(a as int),
        -ONE <= r <= ONE,
{
    sine(reduce(a) + QUARTER_TURN)
}

} // verus!
