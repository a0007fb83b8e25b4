//! Sine and cosine on fixed-point angles.
//!
//! Angles are in radians. A full turn is [`TAU`] millionths, which is the
//! period of [`sine`] exactly. On a half turn the sine is the rational
//! function `16 x (π - x) / (5 π² - 4 x (π - x))`, which stays within 0.002
//! of the circular sine and meets it at 0, π/6, π/2, 5π/6 and π.

use vstd::prelude::*;
use vstd::arithmetic::div_mod::*;
use crate::fixed::{Fixed, ONE};

verus! {

/// Half a turn.
pub const PI: i64 = 3_141_592;

/// A quarter turn.
pub const HALF_PI: i64 = 1_570_796;

/// A full turn.
pub const TAU: i64 = 6_283_184;

/// The angle in `[0, TAU)` that differs from `x` by whole turns.
pub open spec fn wrap_angle(x: int) -> int {
    x % (TAU as int)
}

/// The sine of an angle `x` in `[0, PI]`.
pub open spec fn half_wave(x: int) -> int {
    let p = x * (PI - x);
    (16 * p * ONE) / (5 * PI * PI - 4 * p)
}

/// The sine of `x`.
pub open spec fn sine(x: int) -> int {
    let a = wrap_angle(x);
    if a <= PI { half_wave(a) } else { -half_wave(a - PI) }
}

/// The cosine of `x`.
pub open spec fn cosine(x: int) -> int {
    sine(x + HALF_PI)
}

/// On a half turn the sine lies between zero and one.
pub proof fn lemma_half_wave_range(x: int)
    requires
        0 <= x <= PI,
    ensures
        0 <= half_wave(x) <= ONE,
{
    let p = x * (PI - x);
    let d = 5 * PI * PI - 4 * p;
    assert(0 <= p && 4 * p <= PI * PI) by (nonlinear_arith)
        requires
            0 <= x <= PI,
            p == x * (PI - x),
    ;
    assert(d > 0 && 16 * p * ONE <= d * ONE);
    assert(0 <= (16 * p * ONE) / d <= ONE) by (nonlinear_arith)
        requires
            d > 0,
            0 <= 16 * p * ONE <= d * ONE,
    ;
}

/// On the first quarter turn the sine rises.
pub proof fn lemma_half_wave_rises(x: int, y: int)
    requires
        0 <= x <= y <= HALF_PI,
    ensures
        half_wave(x) <= half_wave(y),
{
    let p = x * (PI - x);
    let q = y * (PI - y);
    assert(0 <= p <= q && 4 * q <= PI * PI) by (nonlinear_arith)
        requires
            0 <= x <= y,
            2 * y <= PI,
            PI == 3_141_592,
            p == x * (PI - x),
            q == y * (PI - y),
    ;
    let c = 5 * PI * PI - 4 * p;
    let d = 5 * PI * PI - 4 * q;
    assert(0 < d <= c);
    lemma_div_is_ordered(16 * p * ONE, 16 * q * ONE, c);
    lemma_div_is_ordered_by_denominator(16 * q * ONE, d, c);
}

/// The sine never leaves `[-1, 1]`.
pub proof fn lemma_sine_range(x: int)
    ensures
        -ONE <= sine(x) <= ONE,
{
    let a = wrap_angle(x);
    if a <= PI {
        lemma_half_wave_range(a);
    } else {
        lemma_half_wave_range(a - PI);
    }
}

/// Reduces an angle to `[0, TAU)`.
pub fn wrap(x: Fixed) -> (a: Fixed)
    ensures
        a == wrap_angle(x as int),
        0 <= a < TAU,
{
    let r: i64 = x % TAU;
    if r < 0 { r + TAU } else { r }
}

/// Computes the sine of `x`.
pub fn sin(x: Fixed) -> (r: Fixed)
    ensures
        r == sine(x as int),
        -ONE <= r <= ONE,
{
    let a: i64 = wrap(x);
    proof {
        lemma_sine_range(x as int);
    }
    if a <= PI {
        half_sin(a)
    } else {
        -half_sin(a - PI)
    }
}

/// Computes the cosine of `x`.
pub fn cos(x: Fixed) -> (r: Fixed)
    ensures
        r == cosine(x as int),
        -ONE <= r <= ONE,
{
    let a: i64 = wrap(x);
    proof {
        lemma_add_mod_noop(x as int, HALF_PI as int, TAU as int);
        lemma_add_mod_noop(a as int, HALF_PI as int, TAU as int);
        lemma_small_mod(a as nat, TAU as nat);
    }
    sin(a + HALF_PI)
}

fn half_sin(x: Fixed) -> (r: Fixed)
    requires
        0 <= x <= PI,
    ensures
        r == half_wave(x as int),
        0 <= r <= ONE,
{
    proof {
        lemma_half_wave_range(x as int);
        assert(0 <= x * (PI - x) && 4 * (x * (PI - x)) <= PI * PI) by (nonlinear_arith)
            requires
                0 <= x <= PI,
        ;
    }
    let p: i128 = (x as i128) * ((PI - x) as i128);
    let num: i128 = 16 * p * (ONE as i128);
    let den: i128 = 5 * (PI as i128) * (PI as i128) - 4 * p;
    (num / den) as i64
}

/// The sine repeats after a full turn.
pub proof fn lemma_sine_periodic(x: int)
    ensures
        sine(x + TAU) == sine(x),
{
    lemma_mod_add_multiples_vanish(x, TAU as int);
}

/// The sine is zero at zero and at half a turn, one at a quarter turn and
/// minus one at three quarters.
pub proof fn lemma_sine_landmarks()
    ensures
        sine(0) == 0,
        sine(HALF_PI as int) == ONE,
        sine(PI as int) == 0,
        sine(PI + HALF_PI) == -ONE,
        cosine(0) == ONE,
{
    assert(half_wave(0) == 0);
    assert(half_wave(PI as int) == 0);
    let p: int = HALF_PI * (PI - HALF_PI);
    assert(p == 2_467_400_073_616) by (nonlinear_arith)
        requires
            p == 1_570_796 * (3_141_592 - 1_570_796),
    ;
    assert(5 * PI * PI - 4 * p == 16 * p) by (nonlinear_arith)
        requires
            p == 2_467_400_073_616,
            PI == 3_141_592,
    ;
    assert((16 * p * ONE) / (16 * p) == ONE) by (nonlinear_arith)
        requires
            p > 0,
    ;
    assert(half_wave(HALF_PI as int) == ONE);
}

/// Negating an angle negates its sine.
pub proof fn lemma_sine_odd(x: int)
    ensures
        sine(-x) == -sine(x),
{
    let t = TAU as int;
    let a = wrap_angle(x);
    lemma_fundamental_div_mod(x, t);
    let q = x / t;
    if a == 0 {
        assert(-x == (-q) * t + 0) by (nonlinear_arith)
            requires
                x == t * q,
        ;
        lemma_fundamental_div_mod_converse(-x, t, -q, 0);
        assert(half_wave(0) == 0);
    } else {
        assert(-x == (-q - 1) * t + (t - a)) by (nonlinear_arith)
            requires
                x == t * q + a,
        ;
        lemma_fundamental_div_mod_converse(-x, t, -q - 1, t - a);
        lemma_half_wave_mirror(a);
        lemma_half_wave_mirror(a - PI);
        assert(half_wave(PI as int) == 0);
    }
}

/// On a half turn the sine is symmetric about the quarter turn.
pub proof fn lemma_half_wave_mirror(x: int)
    ensures
        half_wave(PI - x) == half_wave(x),
{
    assert((PI - x) * (PI - (PI - x)) == x * (PI - x)) by (nonlinear_arith);
}

} // verus!
