//! Fixed-point scalars.
//!
//! A [`Fixed`] is an `i64` counting millionths: the integer `n` stands for the
//! number `n / 1_000_000`. All rounding is toward zero, so that negating the
//! operands of an operation negates its result.

use vstd::prelude::*;

verus! {

/// A number in millionths.
pub type Fixed = i64;

/// The number one.
pub const ONE: i64 = 1_000_000;

/// The largest magnitude that the arithmetic of this crate accepts for a
/// position, a duration or an angle: 2^40 millionths.
pub const LIMIT: i64 = 0x100_0000_0000;

/// The largest magnitude of a speed, a weight or a rate: 2^31 millionths.
pub const RATE_LIMIT: i64 = 0x8000_0000;

/// `x` is a position, duration or angle within [`LIMIT`].
pub open spec fn in_range(x: int) -> bool {
    -LIMIT <= x <= LIMIT
}

/// `x` is a speed, weight or rate within [`RATE_LIMIT`].
pub open spec fn in_rate(x: int) -> bool {
    -RATE_LIMIT <= x <= RATE_LIMIT
}

/// The magnitude of `x`.
pub open spec fn abs(x: int) -> int {
    if x >= 0 { x } else { -x }
}

/// The quotient of `a` by a positive `b`, rounded toward zero.
pub open spec fn trunc_div(a: int, b: int) -> int {
    if a >= 0 { a / b } else { -((-a) / b) }
}

/// The fixed-point product of `a` and `b`.
pub open spec fn product(a: int, b: int) -> int {
    trunc_div(a * b, ONE as int)
}

/// If `|a| <= m` and `|b| <= n` then `|a * b| <= m * n`.
pub proof fn lemma_product_bound(a: int, b: int, m: int, n: int)
    by (nonlinear_arith)
    requires
        -m <= a <= m,
        -n <= b <= n,
    ensures
        -(m * n) <= a * b <= m * n,
{
}

/// A fixed-point product with zero is zero.
pub proof fn lemma_product_zero(k: int)
    by (nonlinear_arith)
    ensures
        product(0, k) == 0,
        product(k, 0) == 0,
{
}

/// Truncating division never grows a magnitude and keeps the sign.
pub proof fn lemma_trunc_div_bound(a: int, b: int)
    by (nonlinear_arith)
    requires
        b >= 1,
    ensures
        abs(trunc_div(a, b)) <= abs(a),
        a >= 0 ==> trunc_div(a, b) >= 0,
        a <= 0 ==> trunc_div(a, b) <= 0,
        trunc_div(-a, b) == -trunc_div(a, b),
{
}

/// If `|a| <= m` and `|b| <= n` then the fixed-point product of `a` and `b`
/// is at most `m * n / 1_000_000` in magnitude.
pub proof fn lemma_product_range(a: int, b: int, m: int, n: int)
    requires
        -m <= a <= m,
        -n <= b <= n,
    ensures
        -((m * n) / (ONE as int)) <= product(a, b) <= (m * n) / (ONE as int),
{
    lemma_product_bound(a, b, m, n);
    let w = a * b;
    let k = m * n;
    assert(-(k / 1_000_000) <= trunc_div(w, 1_000_000) <= k / 1_000_000) by (nonlinear_arith)
        requires
            -k <= w <= k,
    ;
}

/// Multiplies two fixed-point numbers whose product an `i64` can hold.
pub fn times(a: Fixed, b: Fixed) -> (r: Fixed)
    requires
        i64::MIN <= product(a as int, b as int) <= i64::MAX,
    ensures
        r == product(a as int, b as int),
{
    proof {
        lemma_product_bound(a as int, b as int, 0x8000_0000_0000_0000, 0x8000_0000_0000_0000);
    }
    let wide: i128 = (a as i128) * (b as i128);
    let q: i128 = wide / (ONE as i128);
    q as i64
}

/// `r` is the integer square root of `n`, rounded down.
pub open spec fn is_floor_sqrt(n: int, r: int) -> bool {
    r >= 0 && r * r <= n < (r + 1) * (r + 1)
}

/// The integer square root of `n`, rounded down.
pub open spec fn floor_sqrt(n: int) -> int {
    choose|r: int| is_floor_sqrt(n, r)
}

/// At most one number is the rounded-down square root of `n`, so whichever one
/// is found is [`floor_sqrt`].
pub proof fn lemma_floor_sqrt_unique(n: int, r: int)
    requires
        is_floor_sqrt(n, r),
    ensures
        floor_sqrt(n) == r,
{
    let c = floor_sqrt(n);
    assert(is_floor_sqrt(n, c));
    assert(c == r) by (nonlinear_arith)
        requires
            c >= 0,
            r >= 0,
            c * c <= n < (c + 1) * (c + 1),
            r * r <= n < (r + 1) * (r + 1),
    ;
}

/// Every natural number has a rounded-down square root.
pub proof fn lemma_floor_sqrt_exists(n: int)
    requires
        n >= 0,
    ensures
        is_floor_sqrt(n, floor_sqrt(n)),
    decreases n,
{
    if n == 0 {
        assert(is_floor_sqrt(0, 0));
    } else {
        lemma_floor_sqrt_exists(n - 1);
        let r = floor_sqrt(n - 1);
        if (r + 1) * (r + 1) <= n {
            assert(n < (r + 2) * (r + 2)) by (nonlinear_arith)
                requires
                    r >= 0,
                    n - 1 < (r + 1) * (r + 1),
            ;
            assert(is_floor_sqrt(n, r + 1));
        } else {
            assert(is_floor_sqrt(n, r));
        }
    }
}

/// Squaring is monotone on the natural numbers.
pub proof fn lemma_square_monotone(a: int, b: int)
    by (nonlinear_arith)
    requires
        0 <= a <= b,
    ensures
        a * a <= b * b,
{
}

/// Computes the integer square root of `n`, rounded down.
pub fn isqrt(n: u128) -> (r: u128)
    ensures
        r == floor_sqrt(n as int),
        is_floor_sqrt(n as int, r as int),
        r < 0x1_0000_0000_0000_0000,
{
    let mut lo: u128 = 0;
    let mut hi: u128 = 0x1_0000_0000_0000_0000;
    while hi - lo > 1
        invariant
            lo < hi <= 0x1_0000_0000_0000_0000,
            lo * lo <= n < hi * hi,
        decreases hi - lo,
    {
        let mid: u128 = lo + (hi - lo) / 2;
        proof {
            lemma_square_monotone(mid as int, 0xffff_ffff_ffff_ffff);
        }
        if mid * mid <= n {
            lo = mid;
        } else {
            hi = mid;
        }
    }
    proof {
        lemma_floor_sqrt_unique(n as int, lo as int);
    }
    lo
}

} // verus!
