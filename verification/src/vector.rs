//! Three-dimensional vectors of fixed-point numbers.
//!
//! [`Int3`] is the mathematical model: a triple of unbounded integers, each in
//! millionths. [`Vec3`] is what programs hold, and [`Wide3`] carries the
//! intermediate sums of a computation, which may exceed a `Vec3`.

use vstd::prelude::*;
use crate::fixed::{Fixed, ONE, LIMIT, RATE_LIMIT, abs, trunc_div, product, floor_sqrt, isqrt,
    lemma_product_bound, lemma_trunc_div_bound, lemma_floor_sqrt_exists};

verus! {

/// A vector of three integers in millionths.
pub ghost struct Int3 {
    pub x: int,
    pub y: int,
    pub z: int,
}

impl Int3 {
    /// The zero vector.
    pub open spec fn zero() -> Int3 {
        Int3 { x: 0, y: 0, z: 0 }
    }

    /// The sum of two vectors.
    pub open spec fn plus(self, o: Int3) -> Int3 {
        Int3 { x: self.x + o.x, y: self.y + o.y, z: self.z + o.z }
    }

    /// The difference of two vectors.
    pub open spec fn minus(self, o: Int3) -> Int3 {
        Int3 { x: self.x - o.x, y: self.y - o.y, z: self.z - o.z }
    }

    /// The fixed-point product of the vector with the number `k`.
    pub open spec fn scaled(self, k: int) -> Int3 {
        Int3 { x: product(self.x, k), y: product(self.y, k), z: product(self.z, k) }
    }

    /// Each component times the integer `m` over the positive integer `d`,
    /// rounded toward zero.
    pub open spec fn ratio(self, m: int, d: int) -> Int3 {
        Int3 {
            x: trunc_div(self.x * m, d),
            y: trunc_div(self.y * m, d),
            z: trunc_div(self.z * m, d),
        }
    }

    /// The inner product, in units of 10^-12.
    pub open spec fn dot(self, o: Int3) -> int {
        self.x * o.x + self.y * o.y + self.z * o.z
    }

    /// The squared length, in units of 10^-12.
    pub open spec fn len_sq(self) -> int {
        self.dot(self)
    }

    /// No component exceeds `b` in magnitude.
    pub open spec fn within(self, b: int) -> bool {
        &&& -b <= self.x <= b
        &&& -b <= self.y <= b
        &&& -b <= self.z <= b
    }

    /// The vector between `self` and `o` at the fraction `f` of the way, where
    /// `f` is a fixed-point number in `[0, 1]`.
    pub open spec fn lerp(self, o: Int3, f: int) -> Int3 {
        self.plus(o.minus(self).scaled(f))
    }

    /// Each component times the integer `m`.
    pub open spec fn times(self, m: int) -> Int3 {
        Int3 { x: self.x * m, y: self.y * m, z: self.z * m }
    }

    /// Each component halved, rounded toward zero.
    pub open spec fn halved(self) -> Int3 {
        self.ratio(1, 2)
    }

    /// The largest magnitude among the components.
    pub open spec fn max_abs(self) -> int {
        let m = if abs(self.x) >= abs(self.y) { abs(self.x) } else { abs(self.y) };
        if m >= abs(self.z) { m } else { abs(self.z) }
    }

    /// The vector halved as often as it takes to bring every component within
    /// [`RATE_LIMIT`]. Halving keeps the direction up to rounding.
    pub open spec fn shrunk(self) -> Int3
        decreases self.max_abs(),
    {
        if self.within(RATE_LIMIT as int) {
            self
        } else {
            self.halved().shrunk()
        }
    }

    /// No component of the vector points against the same component of `w`,
    /// and it has none where `w` has none.
    pub open spec fn along(self, w: Int3) -> bool {
        &&& (w.x >= 0 ==> self.x >= 0) && (w.x <= 0 ==> self.x <= 0)
        &&& (w.y >= 0 ==> self.y >= 0) && (w.y <= 0 ==> self.y <= 0)
        &&& (w.z >= 0 ==> self.z >= 0) && (w.z <= 0 ==> self.z <= 0)
    }

    /// The vector of length `s` along `self`, each component rounded toward
    /// zero: the component `x` becomes the largest integer `a` with
    /// `a² · |self|² <= x² · s²`, under the sign of `x`. The zero vector has no
    /// direction and stays zero.
    pub open spec fn with_length(self, s: int) -> Int3 {
        let n = self.len_sq();
        if n == 0 {
            Int3::zero()
        } else {
            Int3 {
                x: stretch(self.x, s, n),
                y: stretch(self.y, s, n),
                z: stretch(self.z, s, n),
            }
        }
    }
}

/// One component of [`Int3::with_length`]: `x · s / sqrt(n)` rounded toward
/// zero, for `n > 0`.
pub open spec fn stretch(x: int, s: int, n: int) -> int {
    let r = floor_sqrt((x * x * (s * s)) / n);
    if x >= 0 { r } else { -r }
}

/// The magnitude `a` of `stretch(x, s, n)` is the largest integer with
/// `a² · n <= x² · s²`, and the component keeps the sign of `x`.
pub proof fn lemma_stretch(x: int, s: int, n: int)
    requires
        n > 0,
    ensures
        ({
            let a = abs(stretch(x, s, n));
            a * a * n <= x * x * (s * s) < (a + 1) * (a + 1) * n
        }),
        x >= 0 ==> stretch(x, s, n) >= 0,
        x <= 0 ==> stretch(x, s, n) <= 0,
        stretch(-x, s, n) == -stretch(x, s, n),
{
    let w = x * x * (s * s);
    assert(w >= 0 && w == (-x) * (-x) * (s * s)) by (nonlinear_arith)
        requires
            w == x * x * (s * s),
    ;
    let q = w / n;
    assert(q >= 0 && q * n <= w < (q + 1) * n) by (nonlinear_arith)
        requires
            w >= 0,
            n > 0,
            q == w / n,
    ;
    lemma_floor_sqrt_exists(q);
    let a = floor_sqrt(q);
    assert(a * a * n <= w < (a + 1) * (a + 1) * n) by (nonlinear_arith)
        requires
            a >= 0,
            n > 0,
            a * a <= q < (a + 1) * (a + 1),
            q * n <= w < (q + 1) * n,
    ;
    if x == 0 {
        assert(w == 0) by (nonlinear_arith)
            requires
                w == x * x * (s * s),
                x == 0,
        ;
        assert(a == 0) by (nonlinear_arith)
            requires
                a >= 0,
                n > 0,
                a * a * n <= 0,
        ;
    }
}

/// A vector within `b`, taken `m` times with `|m| <= c` and divided by a
/// positive `d`, stays within `b · c`.
pub proof fn lemma_ratio_within(v: Int3, m: int, d: int, b: int, c: int)
    requires
        v.within(b),
        -c <= m <= c,
        d >= 1,
    ensures
        v.times(m).within(b * c),
        v.ratio(m, d).within(b * c),
{
    lemma_product_bound(v.x, m, b, c);
    lemma_product_bound(v.y, m, b, c);
    lemma_product_bound(v.z, m, b, c);
    lemma_trunc_div_bound(v.x * m, d);
    lemma_trunc_div_bound(v.y * m, d);
    lemma_trunc_div_bound(v.z * m, d);
}

/// Among three naturals, the square of the sum is at most three times the sum
/// of the squares.
proof fn lemma_sum_square(a: int, b: int, c: int)
    by (nonlinear_arith)
    ensures
        (a + b + c) * (a + b + c) <= 3 * (a * a + b * b + c * c),
{
    assert((a - b) * (a - b) >= 0);
    assert((a - c) * (a - c) >= 0);
    assert((b - c) * (b - c) >= 0);
}

/// A vector brought to the length `s` is never longer than `s`, and shorter by
/// less than two millionths; it points the way the vector did.
pub proof fn lemma_with_length_bounds(v: Int3, s: int)
    requires
        s >= 0,
        v.len_sq() > 0,
    ensures
        v.with_length(s).len_sq() <= s * s,
        s >= 2 ==> v.with_length(s).len_sq() >= (s - 2) * (s - 2),
        v.with_length(s).within(s),
        v.with_length(s).dot(v) >= 0,
{
    let n = v.len_sq();
    let r = v.with_length(s);
    lemma_stretch(v.x, s, n);
    lemma_stretch(v.y, s, n);
    lemma_stretch(v.z, s, n);
    let a = abs(r.x);
    let b = abs(r.y);
    let c = abs(r.z);
    let k = s * s;
    assert(a * a == r.x * r.x && b * b == r.y * r.y && c * c == r.z * r.z) by (nonlinear_arith)
        requires
            a == abs(r.x),
            b == abs(r.y),
            c == abs(r.z),
    ;
    let t = a * a + b * b + c * c;
    assert(r.len_sq() == t);
    let u = (a + 1) * (a + 1) + (b + 1) * (b + 1) + (c + 1) * (c + 1);
    assert(t * n <= k * n && u * n > k * n) by (nonlinear_arith)
        requires
            n == v.x * v.x + v.y * v.y + v.z * v.z,
            t == a * a + b * b + c * c,
            u == (a + 1) * (a + 1) + (b + 1) * (b + 1) + (c + 1) * (c + 1),
            a * a * n <= v.x * v.x * k < (a + 1) * (a + 1) * n,
            b * b * n <= v.y * v.y * k < (b + 1) * (b + 1) * n,
            c * c * n <= v.z * v.z * k < (c + 1) * (c + 1) * n,
    ;
    assert(t <= k && u > k) by (nonlinear_arith)
        requires
            n > 0,
            t * n <= k * n,
            u * n > k * n,
    ;
    assert(a <= s && b <= s && c <= s) by (nonlinear_arith)
        requires
            a >= 0,
            b >= 0,
            c >= 0,
            s >= 0,
            a * a + b * b + c * c <= s * s,
    ;
    if s >= 2 {
        let m = s - 2;
        if t < m * m {
            let g = a + b + c;
            lemma_sum_square(a, b, c);
            assert(g < 2 * m) by (nonlinear_arith)
                requires
                    g >= 0,
                    m >= 0,
                    g * g <= 3 * t,
                    t < m * m,
            ;
            assert(u == t + 2 * g + 3) by (nonlinear_arith)
                requires
                    u == (a + 1) * (a + 1) + (b + 1) * (b + 1) + (c + 1) * (c + 1),
                    t == a * a + b * b + c * c,
                    g == a + b + c,
            ;
            assert(u <= s * s) by (nonlinear_arith)
                requires
                    u == t + 2 * g + 3,
                    t < m * m,
                    g < 2 * m,
                    m == s - 2,
            ;
            assert(false);
        }
    }
    assert(r.x * v.x >= 0 && r.y * v.y >= 0 && r.z * v.z >= 0) by (nonlinear_arith)
        requires
            v.x >= 0 ==> r.x >= 0,
            v.x <= 0 ==> r.x <= 0,
            v.y >= 0 ==> r.y >= 0,
            v.y <= 0 ==> r.y <= 0,
            v.z >= 0 ==> r.z >= 0,
            v.z <= 0 ==> r.z <= 0,
    ;
}

/// A vector of three fixed-point numbers.
#[derive(Clone, Copy, Debug, PartialEq, Eq, Structural)]
pub struct Vec3 {
    pub x: Fixed,
    pub y: Fixed,
    pub z: Fixed,
}

impl View for Vec3 {
    type V = Int3;

    open spec fn view(&self) -> Int3 {
        Int3 { x: self.x as int, y: self.y as int, z: self.z as int }
    }
}

impl Vec3 {
    /// The vector with the given components.
    pub fn new(x: Fixed, y: Fixed, z: Fixed) -> (v: Vec3)
        ensures
            v == (Vec3 { x, y, z }),
    {
        Vec3 { x, y, z }
    }

    /// The zero vector.
    pub fn zero() -> (v: Vec3)
        ensures
            v@ == Int3::zero(),
    {
        Vec3 { x: 0, y: 0, z: 0 }
    }

    /// Every component is a position within [`LIMIT`].
    pub open spec fn is_position(&self) -> bool {
        self@.within(LIMIT as int)
    }

    /// Every component is a rate within [`RATE_LIMIT`].
    pub open spec fn is_rate(&self) -> bool {
        self@.within(RATE_LIMIT as int)
    }

    /// The squared length.
    pub fn len_sq(&self) -> (n: u128)
        requires
            self.is_position(),
        ensures
            n == self@.len_sq(),
    {
        Wide3::from_vec(*self).len_sq()
    }

    /// The vector of length `s` along this one; zero if this one is zero.
    pub fn with_length(&self, s: Fixed) -> (v: Vec3)
        requires
            self.is_rate(),
            0 <= s <= RATE_LIMIT,
        ensures
            v@ == self@.with_length(s as int),
            v@.within(s as int),
    {
        let n: u128 = Wide3::from_vec(*self).len_sq();
        if n == 0 {
            return Vec3 { x: 0, y: 0, z: 0 };
        }
        proof {
            lemma_with_length_bounds(self@, s as int);
        }
        Vec3 {
            x: stretch_component(self.x, s, n),
            y: stretch_component(self.y, s, n),
            z: stretch_component(self.z, s, n),
        }
    }

    /// The vector at the fraction `f` of the way from this one to `o`.
    pub fn lerp(&self, o: &Vec3, f: Fixed) -> (v: Vec3)
        requires
            self.is_rate(),
            o.is_rate(),
            0 <= f <= ONE,
        ensures
            v@ == self@.lerp(o@, f as int),
            v.is_rate(),
    {
        Vec3 {
            x: lerp_component(self.x, o.x, f),
            y: lerp_component(self.y, o.y, f),
            z: lerp_component(self.z, o.z, f),
        }
    }

    /// Tells whether every component is within `bound` in magnitude.
    pub fn fits(&self, bound: Fixed) -> (b: bool)
        requires
            bound >= 0,
        ensures
            b == self@.within(bound as int),
    {
        -bound <= self.x && self.x <= bound && -bound <= self.y && self.y <= bound
            && -bound <= self.z && self.z <= bound
    }
}

fn stretch_component(x: Fixed, s: Fixed, n: u128) -> (r: Fixed)
    requires
        -RATE_LIMIT <= x <= RATE_LIMIT,
        0 <= s <= RATE_LIMIT,
        n > 0,
    ensures
        r == stretch(x as int, s as int, n as int),
{
    let a: u128 = if x >= 0 { x as u128 } else { (-x) as u128 };
    proof {
        lemma_product_bound(s as int, s as int, RATE_LIMIT as int, RATE_LIMIT as int);
    }
    let k: u128 = (s as u128) * (s as u128);
    let ghost m: int = RATE_LIMIT * RATE_LIMIT;
    proof {
        lemma_product_bound(a as int, a as int, RATE_LIMIT as int, RATE_LIMIT as int);
        lemma_product_bound((a * a) as int, k as int, m, m);
        assert(a * a == x * x) by (nonlinear_arith)
            requires
                a == abs(x as int),
        ;
        lemma_stretch(x as int, s as int, n as int);
    }
    let q: u128 = a * a * k / n;
    let r: u128 = isqrt(q);
    proof {
        assert(q <= a * a * k) by (nonlinear_arith)
            requires
                n >= 1,
                a * a * k >= 0,
                q == (a * a * k) / (n as int),
        ;
        assert(r <= m) by (nonlinear_arith)
            requires
                r >= 0,
                m >= 0,
                r * r <= q,
                q <= m * m,
        ;
    }
    if x >= 0 { r as i64 } else { -(r as i64) }
}

fn lerp_component(a: Fixed, b: Fixed, f: Fixed) -> (r: Fixed)
    requires
        -RATE_LIMIT <= a <= RATE_LIMIT,
        -RATE_LIMIT <= b <= RATE_LIMIT,
        0 <= f <= ONE,
    ensures
        r == a + product(b - a, f as int),
        a <= b ==> a <= r <= b,
        b <= a ==> b <= r <= a,
{
    let d: i128 = (b - a) as i128;
    proof {
        lemma_product_bound(d as int, f as int, 2 * RATE_LIMIT, ONE as int);
        lemma_fraction(d as int, f as int);
    }
    let step: i128 = d * (f as i128) / (ONE as i128);
    (a as i128 + step) as i64
}

/// A fraction `f` in `[0, 1]` of `d` lies between zero and `d`.
pub proof fn lemma_fraction(d: int, f: int)
    by (nonlinear_arith)
    requires
        0 <= f <= ONE,
    ensures
        d >= 0 ==> 0 <= product(d, f) <= d,
        d <= 0 ==> d <= product(d, f) <= 0,
        f == 0 ==> product(d, f) == 0,
        f == ONE ==> product(d, f) == d,
{
}

/// Halving a vector until it fits turns none of its components around.
pub proof fn lemma_shrunk_along(v: Int3)
    ensures
        v.shrunk().along(v),
    decreases v.max_abs(),
{
    if !v.within(RATE_LIMIT as int) {
        lemma_shrunk_along(v.halved());
    }
}

/// Bringing a vector to a length that is not negative turns none of its
/// components around.
pub proof fn lemma_with_length_along(v: Int3, s: int)
    ensures
        v.with_length(s).along(v),
{
    let n = v.len_sq();
    assert(n >= 0) by (nonlinear_arith)
        requires
            n == v.x * v.x + v.y * v.y + v.z * v.z,
    ;
    if n > 0 {
        lemma_stretch(v.x, s, n);
        lemma_stretch(v.y, s, n);
        lemma_stretch(v.z, s, n);
    } else {
        assert(v.x == 0 && v.y == 0 && v.z == 0) by (nonlinear_arith)
            requires
                v.x * v.x + v.y * v.y + v.z * v.z == 0,
        ;
    }
}

/// A vector that lies along another has no part against it, and unless it is
/// zero it has a part with it.
pub proof fn lemma_along_dot(v: Int3, w: Int3)
    requires
        v.along(w),
    ensures
        v.dot(w) >= 0,
        v != Int3::zero() ==> v.dot(w) > 0,
{
    assert(v.x * w.x >= 0 && (v.x != 0 ==> v.x * w.x > 0)) by (nonlinear_arith)
        requires
            (w.x >= 0 ==> v.x >= 0) && (w.x <= 0 ==> v.x <= 0),
    ;
    assert(v.y * w.y >= 0 && (v.y != 0 ==> v.y * w.y > 0)) by (nonlinear_arith)
        requires
            (w.y >= 0 ==> v.y >= 0) && (w.y <= 0 ==> v.y <= 0),
    ;
    assert(v.z * w.z >= 0 && (v.z != 0 ==> v.z * w.z > 0)) by (nonlinear_arith)
        requires
            (w.z >= 0 ==> v.z >= 0) && (w.z <= 0 ==> v.z <= 0),
    ;
}

/// Interpolation stays between its ends, component by component, and meets
/// them at the fractions zero and one.
pub proof fn lemma_lerp_between(a: Int3, b: Int3, f: int)
    requires
        0 <= f <= ONE,
    ensures
        ({
            let r = a.lerp(b, f);
            &&& (a.x <= b.x ==> a.x <= r.x <= b.x) && (b.x <= a.x ==> b.x <= r.x <= a.x)
            &&& (a.y <= b.y ==> a.y <= r.y <= b.y) && (b.y <= a.y ==> b.y <= r.y <= a.y)
            &&& (a.z <= b.z ==> a.z <= r.z <= b.z) && (b.z <= a.z ==> b.z <= r.z <= a.z)
        }),
        f == 0 ==> a.lerp(b, f) == a,
        f == ONE ==> a.lerp(b, f) == b,
{
    lemma_fraction(b.x - a.x, f);
    lemma_fraction(b.y - a.y, f);
    lemma_fraction(b.z - a.z, f);
}

/// Twice the product of two magnitudes is at most the sum of their squares.
proof fn lemma_mean(a: int, b: int)
    by (nonlinear_arith)
    ensures
        2 * (abs(a) * abs(b)) <= a * a + b * b,
{
    assert((abs(a) - abs(b)) * (abs(a) - abs(b)) >= 0);
    assert(abs(a) * abs(a) == a * a);
    assert(abs(b) * abs(b) == b * b);
}

/// One component of [`lemma_lerp_keeps_heading`]: twice the step `t` taken
/// from `v` toward `d`, times `v`, is at least `-(|d| · |v| + v²)`.
proof fn lemma_half_step(v: int, d: int, f: int)
    requires
        0 <= 2 * f <= ONE,
    ensures
        2 * (product(d - v, f) * v) >= -(abs(d) * abs(v)) - v * v,
{
    let e = d - v;
    let t = product(e, f);
    assert(-abs(e) <= 2 * t <= abs(e)) by (nonlinear_arith)
        requires
            0 <= 2 * f <= 1_000_000,
            t == trunc_div(e * f, 1_000_000),
    ;
    assert(abs(e) <= abs(d) + abs(v));
    assert(2 * (t * v) >= -((abs(d) + abs(v)) * abs(v))) by (nonlinear_arith)
        requires
            -(abs(d) + abs(v)) <= 2 * t <= abs(d) + abs(v),
    ;
    assert((abs(d) + abs(v)) * abs(v) == abs(d) * abs(v) + v * v) by (nonlinear_arith);
}

/// Interpolating at most half of the way toward a vector that is no longer
/// never turns a vector by more than a right angle: the result has no
/// component against the vector it started from.
pub proof fn lemma_lerp_keeps_heading(v: Int3, d: Int3, f: int)
    requires
        0 <= 2 * f <= ONE,
        d.len_sq() <= v.len_sq(),
    ensures
        v.lerp(d, f).dot(v) >= 0,
{
    let r = v.lerp(d, f);
    let tx = product(d.x - v.x, f);
    let ty = product(d.y - v.y, f);
    let tz = product(d.z - v.z, f);
    lemma_half_step(v.x, d.x, f);
    lemma_half_step(v.y, d.y, f);
    lemma_half_step(v.z, d.z, f);
    let n = v.len_sq();
    let m = d.len_sq();
    let p = abs(d.x) * abs(v.x) + abs(d.y) * abs(v.y) + abs(d.z) * abs(v.z);
    lemma_mean(d.x, v.x);
    lemma_mean(d.y, v.y);
    lemma_mean(d.z, v.z);
    assert(2 * p <= m + n);
    assert(r.dot(v) == n + (tx * v.x + ty * v.y + tz * v.z)) by (nonlinear_arith)
        requires
            r.x == v.x + tx,
            r.y == v.y + ty,
            r.z == v.z + tz,
            r.dot(v) == r.x * v.x + r.y * v.y + r.z * v.z,
            n == v.x * v.x + v.y * v.y + v.z * v.z,
    ;
}

/// A vector with room in each component for the sums and products that a
/// computation passes through.
#[derive(Clone, Copy, Debug)]
pub struct Wide3 {
    pub x: i128,
    pub y: i128,
    pub z: i128,
}

impl View for Wide3 {
    type V = Int3;

    open spec fn view(&self) -> Int3 {
        Int3 { x: self.x as int, y: self.y as int, z: self.z as int }
    }
}

/// The bound within which a [`Wide3`] can be squared and summed: 2^62.
pub const SQUARE_LIMIT: i128 = 0x4000_0000_0000_0000;

/// The bound that every [`Wide3`] operation of this crate stays under: 2^120.
pub const WIDE_LIMIT: i128 = 0x100_0000_0000_0000_0000_0000_0000_0000;

impl Wide3 {
    /// The same vector, widened.
    pub fn from_vec(v: Vec3) -> (w: Wide3)
        ensures
            w@ == v@,
    {
        Wide3 { x: v.x as i128, y: v.y as i128, z: v.z as i128 }
    }

    /// The zero vector.
    pub fn zero() -> (w: Wide3)
        ensures
            w@ == Int3::zero(),
    {
        Wide3 { x: 0, y: 0, z: 0 }
    }

    /// The sum of two vectors.
    pub fn plus(self, o: Wide3) -> (w: Wide3)
        requires
            self@.within(WIDE_LIMIT as int),
            o@.within(WIDE_LIMIT as int),
        ensures
            w@ == self@.plus(o@),
    {
        Wide3 { x: self.x + o.x, y: self.y + o.y, z: self.z + o.z }
    }

    /// The difference of two vectors.
    pub fn minus(self, o: Wide3) -> (w: Wide3)
        requires
            self@.within(WIDE_LIMIT as int),
            o@.within(WIDE_LIMIT as int),
        ensures
            w@ == self@.minus(o@),
    {
        Wide3 { x: self.x - o.x, y: self.y - o.y, z: self.z - o.z }
    }

    /// Each component times `m` over `d`, rounded toward zero.
    pub fn ratio(self, m: i128, d: i128) -> (w: Wide3)
        requires
            d > 0,
            self@.times(m as int).within(WIDE_LIMIT as int),
        ensures
            w@ == self@.ratio(m as int, d as int),
    {
        Wide3 { x: self.x * m / d, y: self.y * m / d, z: self.z * m / d }
    }

    /// The vector halved until every component is within [`RATE_LIMIT`].
    pub fn shrink(self) -> (v: Vec3)
        ensures
            v@ == self@.shrunk(),
            v.is_rate(),
    {
        let mut w = self;
        while !(-(RATE_LIMIT as i128) <= w.x && w.x <= RATE_LIMIT as i128
            && -(RATE_LIMIT as i128) <= w.y && w.y <= RATE_LIMIT as i128
            && -(RATE_LIMIT as i128) <= w.z && w.z <= RATE_LIMIT as i128)
            invariant
                w@.shrunk() == self@.shrunk(),
            decreases w@.max_abs(),
        {
            w = Wide3 { x: w.x / 2, y: w.y / 2, z: w.z / 2 };
        }
        Vec3 { x: w.x as i64, y: w.y as i64, z: w.z as i64 }
    }

    /// The squared length.
    pub fn len_sq(self) -> (n: u128)
        requires
            self@.within(SQUARE_LIMIT as int),
        ensures
            n == self@.len_sq(),
    {
        proof {
            lemma_product_bound(self.x as int, self.x as int, SQUARE_LIMIT as int, SQUARE_LIMIT as int);
            lemma_product_bound(self.y as int, self.y as int, SQUARE_LIMIT as int, SQUARE_LIMIT as int);
            lemma_product_bound(self.z as int, self.z as int, SQUARE_LIMIT as int, SQUARE_LIMIT as int);
            assert(self.x * self.x >= 0 && self.y * self.y >= 0 && self.z * self.z >= 0)
                by (nonlinear_arith);
        }
        let n: i128 = self.x * self.x + self.y * self.y + self.z * self.z;
        n as u128
    }

    /// The same vector as a [`Vec3`].
    pub fn narrow(self) -> (v: Vec3)
        requires
            self@.within(i64::MAX as int),
        ensures
            v@ == self@,
    {
        Vec3 { x: self.x as i64, y: self.y as i64, z: self.z as i64 }
    }
}

} // verus!
