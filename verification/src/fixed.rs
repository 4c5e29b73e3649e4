//! Fixed-point scale, clamping and division helpers shared by every
//! component of the voice.
//!
//! A signal value of `1.0` is represented by [`UNIT`] (one million), so a
//! micro-unit is the resolution of every amplitude, frequency and time value
//! in the engine.

use vstd::prelude::*;

verus! {

/// 1.0 in fixed-point micro-units.
pub const UNIT: i64 = 1_000_000;

/// 0.5 in fixed-point micro-units.
pub const HALF_UNIT: i64 = 500_000;

/// Largest magnitude a raw control parameter may take, one million units:
/// far beyond any audible setting, and small enough that every product
/// formed by the render loop stays inside `i64`.
pub const PARAM_LIMIT: i64 = 1_000_000_000_000;

/// Truncating division (round toward zero), the rounding the engine uses
/// for every fixed-point multiply-then-scale step.  Matches the `/`
/// operator of the executable code on every operand pair the engine forms.
pub open spec fn div_down(a: int, b: int) -> int {
    if a >= 0 {
        a / b
    } else {
        -((-a) / b)
    }
}

/// Clamp `x` into the inclusive range `[lo, hi]`.
pub open spec fn spec_clamp(x: int, lo: int, hi: int) -> int {
    if x < lo {
        lo
    } else if x > hi {
        hi
    } else {
        x
    }
}

/// Magnitude of an integer.
pub open spec fn abs_val(a: int) -> int {
    if a >= 0 {
        a
    } else {
        -a
    }
}

/// Scaling by a factor `c / u` with `0 <= c <= u` never increases a
/// magnitude and never flips a sign: the scaled value lies between 0 and
/// the value itself.
pub proof fn lemma_div_down_scaled_bounds(a: int, c: int, u: int)
    requires
        0 <= c <= u,
        0 < u,
    ensures
        a >= 0 ==> 0 <= div_down(a * c, u) <= a,
        a < 0 ==> a <= div_down(a * c, u) <= 0,
{
    if a >= 0 {
        lemma_div_down_scaled_bounds_nonneg(a, c, u);
    } else {
        let b = -a;
        assert(a * c == -(b * c)) by (nonlinear_arith)
            requires
                b == -a,
        ;
        lemma_div_down_scaled_bounds_nonneg(b, c, u);
        if b * c == 0 {
            assert(div_down(a * c, u) == 0int / u);
            vstd::arithmetic::div_mod::lemma_div_of0(u);
        } else {
            assert(b * c > 0) by (nonlinear_arith)
                requires
                    b * c >= 0,
                    b * c != 0,
            ;
            assert(div_down(a * c, u) == -((b * c) / u));
        }
    }
}

proof fn lemma_div_down_scaled_bounds_nonneg(a: int, c: int, u: int)
    requires
        0 <= a,
        0 <= c <= u,
        0 < u,
    ensures
        0 <= div_down(a * c, u) <= a,
        0 <= (a * c) / u <= a,
{
    assert(0 <= a * c <= a * u) by (nonlinear_arith)
        requires
            0 <= a,
            0 <= c <= u,
    ;
    vstd::arithmetic::div_mod::lemma_div_pos_is_pos(a * c, u);
    vstd::arithmetic::div_mod::lemma_div_is_ordered(a * c, a * u, u);
    assert(a * u == u * a) by (nonlinear_arith);
    vstd::arithmetic::div_mod::lemma_div_multiples_vanish(a, u);
}

/// A quotient is bounded by any multiple-of-the-divisor bound on the
/// dividend: `|a| <= m * u` gives `|a / u| <= m`.
pub proof fn lemma_div_down_abs_bound(a: int, m: int, u: int)
    requires
        0 < u,
        0 <= m,
        -(m * u) <= a <= m * u,
    ensures
        -m <= div_down(a, u) <= m,
{
    if a >= 0 {
        vstd::arithmetic::div_mod::lemma_div_pos_is_pos(a, u);
        vstd::arithmetic::div_mod::lemma_div_is_ordered(a, m * u, u);
        assert(m * u == u * m) by (nonlinear_arith);
        vstd::arithmetic::div_mod::lemma_div_multiples_vanish(m, u);
    } else {
        vstd::arithmetic::div_mod::lemma_div_pos_is_pos(-a, u);
        vstd::arithmetic::div_mod::lemma_div_is_ordered(-a, m * u, u);
        assert(m * u == u * m) by (nonlinear_arith);
        vstd::arithmetic::div_mod::lemma_div_multiples_vanish(m, u);
    }
}

/// A product of two values bounded in magnitude is bounded by the product
/// of the bounds.
pub proof fn lemma_mul_range_bound(a: int, amax: int, b: int, bmax: int)
    requires
        -amax <= a <= amax,
        -bmax <= b <= bmax,
        0 <= amax,
        0 <= bmax,
    ensures
        -(amax * bmax) <= a * b <= amax * bmax,
{
    assert(-(amax * bmax) <= a * b <= amax * bmax) by (nonlinear_arith)
        requires
            -amax <= a <= amax,
            -bmax <= b <= bmax,
            0 <= amax,
            0 <= bmax,
    ;
}

/// A dividend at least as large as the (positive) divisor yields a
/// quotient of at least one.
pub proof fn lemma_div_down_at_least_one(a: int, u: int)
    requires
        0 < u <= a,
    ensures
        1 <= div_down(a, u),
{
    vstd::arithmetic::div_mod::lemma_div_is_ordered(u, a, u);
    vstd::arithmetic::div_mod::lemma_div_by_self(u);
}

/// One cycle of the sine wave over a phase in `[0, UNIT)`, as the
/// piecewise-quadratic approximation `16 x (1/2 - x)` on the first half
/// cycle, mirrored and negated on the second.  It is exact at the phase
/// points 0, 1/4, 1/2 and 3/4 and stays within `[-UNIT, UNIT]` everywhere.
pub open spec fn spec_sine(p: int) -> int
    recommends
        0 <= p < UNIT,
{
    if p < HALF_UNIT {
        (16 * p * (HALF_UNIT - p)) / (UNIT as int)
    } else {
        -((16 * (p - HALF_UNIT) * (UNIT - p)) / (UNIT as int))
    }
}

/// The sine approximation never leaves the unit amplitude range.
pub proof fn lemma_sine_bounds(p: int)
    requires
        0 <= p < UNIT,
    ensures
        -UNIT <= spec_sine(p) <= UNIT,
{
    if p < HALF_UNIT {
        lemma_sine_quarter_bounds(p);
    } else {
        lemma_sine_quarter_bounds(p - HALF_UNIT);
        assert(16 * (p - HALF_UNIT) * (UNIT - p) == 16 * (p - HALF_UNIT) * (HALF_UNIT - (p
            - HALF_UNIT))) by (nonlinear_arith);
    }
}

/// Bounds for the quadratic `16 q (1/2 - q)` on a quarter phase
/// `0 <= q < 1/2`: it lies in `[0, UNIT * UNIT]` before the final scaling,
/// and in `[0, UNIT]` after it.
proof fn lemma_sine_quarter_bounds(q: int)
    requires
        0 <= q < HALF_UNIT,
    ensures
        0 <= 16 * q * (HALF_UNIT - q) <= UNIT * UNIT,
        0 <= (16 * q * (HALF_UNIT - q)) / (UNIT as int) <= UNIT,
{
    assert(0 <= 16 * q * (HALF_UNIT - q) <= UNIT * UNIT) by (nonlinear_arith)
        requires
            0 <= q < HALF_UNIT,
    ;
    vstd::arithmetic::div_mod::lemma_div_pos_is_pos(16 * q * (HALF_UNIT - q), UNIT as int);
    vstd::arithmetic::div_mod::lemma_div_is_ordered(
        16 * q * (HALF_UNIT - q),
        UNIT * UNIT,
        UNIT as int,
    );
    assert(UNIT * UNIT == (UNIT as int) * (UNIT as int));
    vstd::arithmetic::div_mod::lemma_div_multiples_vanish(UNIT as int, UNIT as int);
}

/// Evaluate the sine approximation at a wrapped phase.
pub fn sine_fp(p: i64) -> (r: i64)
    requires
        0 <= p < UNIT,
    ensures
        r == spec_sine(p as int),
        -UNIT <= r <= UNIT,
{
    proof {
        lemma_sine_bounds(p as int);
        if p < HALF_UNIT {
            lemma_sine_quarter_bounds(p as int);
        } else {
            lemma_sine_quarter_bounds(p - HALF_UNIT);
            assert(16 * (p - HALF_UNIT) * (UNIT - p) == 16 * (p - HALF_UNIT) * (HALF_UNIT - (p
                - HALF_UNIT))) by (nonlinear_arith);
        }
    }
    if p < HALF_UNIT {
        (16 * p * (HALF_UNIT - p)) / UNIT
    } else {
        -((16 * (p - HALF_UNIT) * (UNIT - p)) / UNIT)
    }
}

/// Clamp a value into `[lo, hi]`.
pub fn clamp64(x: i64, lo: i64, hi: i64) -> (r: i64)
    requires
        lo <= hi,
    ensures
        r == spec_clamp(x as int, lo as int, hi as int),
        lo <= r <= hi,
{
    if x < lo {
        lo
    } else if x > hi {
        hi
    } else {
        x
    }
}

} // verus!
