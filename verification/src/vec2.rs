//! Two-dimensional fixed-point vectors.
use vstd::prelude::*;
use crate::fixed::{SCALE, COMPONENT_MAX, trunc_div, fx_mul, fx_div, magnitude, is_ceil_sqrt,
    ceil_sqrt, ceil_sqrt_u128, div_toward_zero, mul_fixed, div_fixed, lemma_trunc_div_bounds,
    lemma_ceil_sqrt_le, lemma_product_magnitude};

verus! {

/// Largest magnitude of a component for which a vector is normalized with
/// the length taken to a thousandth of a step.
pub const PRECISE_MAX: i64 = 0x4_0000_0000_0000;

/// A point or displacement in the plane; each component counts thousandths of a unit.
#[derive(Clone, Copy, Debug, PartialEq, Eq, Structural)]
pub struct Vec2 {
    pub x: i64,
    pub y: i64,
}

impl Vec2 {
    /// The squared Euclidean length, in squared raw steps.
    pub open spec fn norm_sq(self) -> int {
        self.x * self.x + self.y * self.y
    }

    /// The Euclidean length in raw steps, rounded up.
    pub open spec fn len(self) -> int {
        ceil_sqrt(self.norm_sq())
    }

    /// Both components have magnitude at most `bound`.
    pub open spec fn fits(self, bound: int) -> bool {
        -bound <= self.x <= bound && -bound <= self.y <= bound
    }

    /// The vector is no longer than `radius`.
    pub open spec fn within(self, radius: int) -> bool {
        self.norm_sq() <= radius * radius
    }

    /// The sum of two vectors.
    pub open spec fn plus_spec(self, other: Vec2) -> Vec2 {
        Vec2 { x: (self.x + other.x) as i64, y: (self.y + other.y) as i64 }
    }

    /// The difference of two vectors.
    pub open spec fn minus_spec(self, other: Vec2) -> Vec2 {
        Vec2 { x: (self.x - other.x) as i64, y: (self.y - other.y) as i64 }
    }

    /// Each component multiplied by the fixed-point factor `k`.
    pub open spec fn scale_spec(self, k: int) -> Vec2 {
        Vec2 { x: fx_mul(self.x as int, k) as i64, y: fx_mul(self.y as int, k) as i64 }
    }

    /// Each component divided by the positive fixed-point scalar `k`.
    pub open spec fn div_spec(self, k: int) -> Vec2 {
        Vec2 { x: fx_div(self.x as int, k) as i64, y: fx_div(self.y as int, k) as i64 }
    }

    /// The vector rotated a quarter turn: `(x, y)` becomes `(-y, x)`.
    pub open spec fn perp_spec(self) -> Vec2 {
        Vec2 { x: (-self.y) as i64, y: self.x }
    }

    /// The vector rescaled to unit length, or zero for the zero vector. Each
    /// component is rounded toward zero after division by the length, which
    /// is rounded up; for a vector whose components are no larger than
    /// `PRECISE_MAX` the length is taken to a thousandth of a step, so that
    /// even a short vector keeps its direction.
    pub open spec fn normalized(self) -> Vec2 {
        if self.norm_sq() == 0 {
            Vec2 { x: 0, y: 0 }
        } else if self.fits(PRECISE_MAX as int) {
            Vec2 {
                x: trunc_div(
                    self.x * (SCALE * SCALE),
                    ceil_sqrt(self.norm_sq() * (SCALE * SCALE)),
                ) as i64,
                y: trunc_div(
                    self.y * (SCALE * SCALE),
                    ceil_sqrt(self.norm_sq() * (SCALE * SCALE)),
                ) as i64,
            }
        } else {
            Vec2 {
                x: trunc_div(self.x * SCALE, self.len()) as i64,
                y: trunc_div(self.y * SCALE, self.len()) as i64,
            }
        }
    }

    /// The squared distance between two points, in squared raw steps.
    pub open spec fn dist_sq(self, other: Vec2) -> int {
        (self.x - other.x) * (self.x - other.x) + (self.y - other.y) * (self.y - other.y)
    }

    /// Each component multiplied by `numerator / denominator`, rounded toward zero.
    pub open spec fn rescale_spec(self, numerator: int, denominator: int) -> Vec2 {
        Vec2 {
            x: trunc_div(self.x * numerator, denominator) as i64,
            y: trunc_div(self.y * numerator, denominator) as i64,
        }
    }

    /// The vector with the given components.
    pub fn new(x: i64, y: i64) -> (v: Vec2)
        ensures
            v.x == x,
            v.y == y,
    {
        Vec2 { x, y }
    }

    /// The zero vector.
    pub fn zero() -> (v: Vec2)
        ensures
            v == (Vec2 { x: 0, y: 0 }),
    {
        Vec2 { x: 0, y: 0 }
    }

    /// The sum of two vectors.
    pub fn plus(self, other: Vec2) -> (r: Vec2)
        requires
            i64::MIN <= self.x + other.x <= i64::MAX,
            i64::MIN <= self.y + other.y <= i64::MAX,
        ensures
            r == self.plus_spec(other),
            r.x == self.x + other.x,
            r.y == self.y + other.y,
    {
        Vec2 { x: self.x + other.x, y: self.y + other.y }
    }

    /// The difference of two vectors.
    pub fn minus(self, other: Vec2) -> (r: Vec2)
        requires
            i64::MIN <= self.x - other.x <= i64::MAX,
            i64::MIN <= self.y - other.y <= i64::MAX,
        ensures
            r == self.minus_spec(other),
            r.x == self.x - other.x,
            r.y == self.y - other.y,
    {
        Vec2 { x: self.x - other.x, y: self.y - other.y }
    }

    /// Multiplies both components by the fixed-point factor `k`.
    pub fn scale(self, k: i64) -> (r: Vec2)
        requires
            magnitude(self.x as int) * magnitude(k as int) <= i64::MAX * SCALE,
            magnitude(self.y as int) * magnitude(k as int) <= i64::MAX * SCALE,
        ensures
            r == self.scale_spec(k as int),
            r.x == fx_mul(self.x as int, k as int),
            r.y == fx_mul(self.y as int, k as int),
    {
        Vec2 { x: mul_fixed(self.x, k), y: mul_fixed(self.y, k) }
    }

    /// Divides both components by the positive fixed-point scalar `k`.
    pub fn div(self, k: i64) -> (r: Vec2)
        requires
            k > 0,
            magnitude(self.x as int) * SCALE <= i64::MAX * k,
            magnitude(self.y as int) * SCALE <= i64::MAX * k,
        ensures
            r == self.div_spec(k as int),
            r.x == fx_div(self.x as int, k as int),
            r.y == fx_div(self.y as int, k as int),
    {
        Vec2 { x: div_fixed(self.x, k), y: div_fixed(self.y, k) }
    }

    /// The vector rotated a quarter turn.
    pub fn perp(self) -> (r: Vec2)
        requires
            self.y > i64::MIN,
        ensures
            r == self.perp_spec(),
            r.x == -self.y,
            r.y == self.x,
            r.norm_sq() == self.norm_sq(),
    {
        let r = Vec2 { x: -self.y, y: self.x };
        assert(r.norm_sq() == self.norm_sq()) by (nonlinear_arith)
            requires
                r.x == -self.y,
                r.y == self.x,
                r.norm_sq() == r.x * r.x + r.y * r.y,
                self.norm_sq() == self.x * self.x + self.y * self.y,
        ;
        r
    }

    /// The squared length, exactly.
    pub fn length_squared(self) -> (r: u128)
        ensures
            r == self.norm_sq(),
    {
        proof {
            lemma_square_bounds(self.x as int);
            lemma_square_bounds(self.y as int);
        }
        let xx: i128 = (self.x as i128) * (self.x as i128);
        let yy: i128 = (self.y as i128) * (self.y as i128);
        (xx as u128) + (yy as u128)
    }

    /// The squared distance to `other`, exactly.
    pub fn distance_squared(self, other: Vec2) -> (r: u128)
        requires
            i64::MIN <= self.x - other.x <= i64::MAX,
            i64::MIN <= self.y - other.y <= i64::MAX,
        ensures
            r == self.dist_sq(other),
    {
        self.minus(other).length_squared()
    }

    /// The length, rounded up to the next raw step.
    pub fn length(self) -> (r: i64)
        requires
            self.fits(COMPONENT_MAX as int),
        ensures
            r == self.len(),
            is_ceil_sqrt(self.norm_sq(), r as int),
            r >= 0,
    {
        let n = self.length_squared();
        let r = ceil_sqrt_u128(n);
        proof {
            lemma_fits_norm_sq(self, COMPONENT_MAX as int);
            assert(2 * (COMPONENT_MAX * COMPONENT_MAX) <= i64::MAX * i64::MAX) by (nonlinear_arith);
            lemma_ceil_sqrt_le(n as int, r as int, i64::MAX as int);
        }
        r as i64
    }

    /// Multiplies a vector no longer than `denominator` by `numerator /
    /// denominator`; the result is no longer than `numerator`.
    pub fn rescale(self, numerator: i64, denominator: i64) -> (r: Vec2)
        requires
            denominator > 0,
            numerator >= 0,
            self.within(denominator as int),
        ensures
            r == self.rescale_spec(numerator as int, denominator as int),
            r.x == trunc_div(self.x * numerator, denominator as int),
            r.y == trunc_div(self.y * numerator, denominator as int),
            r.within(numerator as int),
            r.fits(numerator as int),
    {
        proof {
            lemma_within_fits(self, denominator as int);
            lemma_rescale_within(
                self.x as int,
                self.y as int,
                denominator as int,
                numerator as int,
            );
            let rx = trunc_div(self.x * numerator, denominator as int);
            let ry = trunc_div(self.y * numerator, denominator as int);
            assert(-numerator <= rx <= numerator && -numerator <= ry <= numerator)
                by (nonlinear_arith)
                requires
                    rx * rx + ry * ry <= numerator * numerator,
                    numerator >= 0,
            ;
            lemma_square_bounds(self.x as int);
            assert(-0x8000_0000_0000_0000 * 0x8000_0000_0000_0000 <= self.x * numerator
                <= 0x8000_0000_0000_0000 * 0x8000_0000_0000_0000) by (nonlinear_arith)
                requires
                    -0x8000_0000_0000_0000 <= self.x <= 0x8000_0000_0000_0000,
                    0 <= numerator <= 0x8000_0000_0000_0000,
            ;
            assert(-0x8000_0000_0000_0000 * 0x8000_0000_0000_0000 <= self.y * numerator
                <= 0x8000_0000_0000_0000 * 0x8000_0000_0000_0000) by (nonlinear_arith)
                requires
                    -0x8000_0000_0000_0000 <= self.y <= 0x8000_0000_0000_0000,
                    0 <= numerator <= 0x8000_0000_0000_0000,
            ;
        }
        let x: i128 = div_toward_zero((self.x as i128) * (numerator as i128), denominator as i128);
        let y: i128 = div_toward_zero((self.y as i128) * (numerator as i128), denominator as i128);
        Vec2 { x: x as i64, y: y as i64 }
    }

    /// Whether the vector is no longer than `radius`.
    pub fn is_within(self, radius: i64) -> (ok: bool)
        requires
            radius >= 0,
        ensures
            ok == self.within(radius as int),
    {
        proof {
            lemma_square_bounds(radius as int);
        }
        let limit: i128 = (radius as i128) * (radius as i128);
        self.length_squared() <= limit as u128
    }

    /// Whether both components have magnitude at most `bound`.
    pub fn is_fitting(self, bound: i64) -> (ok: bool)
        requires
            bound >= 0,
        ensures
            ok == self.fits(bound as int),
    {
        -bound <= self.x && self.x <= bound && -bound <= self.y && self.y <= bound
    }

    /// The vector rescaled to unit length; the zero vector stays zero.
    pub fn normalize_or_zero(self) -> (r: Vec2)
        ensures
            r == self.normalized(),
            r.within(SCALE as int),
            self.norm_sq() == 0 ==> r == (Vec2 { x: 0, y: 0 }),
    {
        let n = self.length_squared();
        if n == 0 {
            let z = Vec2 { x: 0, y: 0 };
            assert(z.within(SCALE as int)) by (nonlinear_arith)
                requires
                    z.x == 0,
                    z.y == 0,
                    z.within(SCALE as int) == (z.x * z.x + z.y * z.y <= SCALE * SCALE),
            ;
            return z;
        }
        if self.is_fitting(PRECISE_MAX) {
            proof {
                lemma_fits_norm_sq(self, PRECISE_MAX as int);
                assert(2 * (PRECISE_MAX * PRECISE_MAX) * 1_000_000 < 0x1_0000_0000_0000_0000
                    * 0x1_0000_0000_0000_0000) by (nonlinear_arith)
                    requires
                        PRECISE_MAX == 0x4_0000_0000_0000,
                ;
                assert(n * 1_000_000 <= 2 * (PRECISE_MAX * PRECISE_MAX) * 1_000_000)
                    by (nonlinear_arith)
                    requires
                        n <= 2 * (PRECISE_MAX * PRECISE_MAX),
                ;
            }
            let fine: u128 = n * 1_000_000;
            let len = ceil_sqrt_u128(fine);
            let l: i128 = len as i128;
            proof {
                let sx = self.x * SCALE;
                let sy = self.y * SCALE;
                assert(sx * sx + sy * sy == self.norm_sq() * (SCALE * SCALE)) by (nonlinear_arith)
                    requires
                        sx == self.x * SCALE,
                        sy == self.y * SCALE,
                        self.norm_sq() == self.x * self.x + self.y * self.y,
                ;
                assert(sx * SCALE == self.x * (SCALE * SCALE) && sy * SCALE == self.y * (SCALE
                    * SCALE)) by (nonlinear_arith)
                    requires
                        sx == self.x * SCALE,
                        sy == self.y * SCALE,
                ;
                lemma_rescale_within(sx, sy, l as int, SCALE as int);
                let qx = trunc_div(self.x * (SCALE * SCALE), l as int);
                let qy = trunc_div(self.y * (SCALE * SCALE), l as int);
                assert(-SCALE <= qx <= SCALE && -SCALE <= qy <= SCALE) by (nonlinear_arith)
                    requires
                        qx * qx + qy * qy <= SCALE * SCALE,
                        SCALE == 1000,
                ;
            }
            let x: i128 = div_toward_zero((self.x as i128) * 1_000_000, l);
            let y: i128 = div_toward_zero((self.y as i128) * 1_000_000, l);
            return Vec2 { x: x as i64, y: y as i64 };
        }
        let len = ceil_sqrt_u128(n);
        let l: i128 = len as i128;
        proof {
            lemma_rescale_within(self.x as int, self.y as int, l as int, SCALE as int);
            let qx = trunc_div(self.x * SCALE, l as int);
            let qy = trunc_div(self.y * SCALE, l as int);
            assert(-SCALE <= qx <= SCALE && -SCALE <= qy <= SCALE) by (nonlinear_arith)
                requires
                    qx * qx + qy * qy <= SCALE * SCALE,
                    SCALE == 1000,
            ;
        }
        let x: i128 = div_toward_zero((self.x as i128) * (SCALE as i128), l);
        let y: i128 = div_toward_zero((self.y as i128) * (SCALE as i128), l);
        Vec2 { x: x as i64, y: y as i64 }
    }
}

/// A vector whose components are bounded by `bound` is no longer than twice `bound`.
pub proof fn lemma_fits_len(v: Vec2, bound: int)
    requires
        v.fits(bound),
        bound >= 0,
    ensures
        0 <= v.len() <= 2 * bound,
        is_ceil_sqrt(v.norm_sq(), v.len()),
        v.within(v.len()),
{
    lemma_fits_norm_sq(v, bound);
    crate::fixed::lemma_ceil_sqrt_exists(v.norm_sq());
    assert(2 * (bound * bound) <= (2 * bound) * (2 * bound)) by (nonlinear_arith);
    lemma_ceil_sqrt_le(v.norm_sq(), v.len(), 2 * bound);
}

/// A vector whose components are bounded has a bounded squared length.
pub proof fn lemma_fits_norm_sq(v: Vec2, bound: int)
    requires
        v.fits(bound),
    ensures
        0 <= v.norm_sq() <= 2 * (bound * bound),
{
    assert(0 <= v.x * v.x <= bound * bound) by (nonlinear_arith)
        requires
            -bound <= v.x <= bound,
    ;
    assert(0 <= v.y * v.y <= bound * bound) by (nonlinear_arith)
        requires
            -bound <= v.y <= bound,
    ;
}

/// A vector no longer than `radius` has both components within `radius`.
pub proof fn lemma_within_fits(v: Vec2, radius: int)
    requires
        radius >= 0,
        v.within(radius),
    ensures
        v.fits(radius),
        magnitude(v.x as int) <= radius,
        magnitude(v.y as int) <= radius,
{
    assert(magnitude(v.x as int) <= radius) by (nonlinear_arith)
        requires
            v.x * v.x + v.y * v.y <= radius * radius,
            radius >= 0,
            magnitude(v.x as int) == if v.x >= 0 { v.x as int } else { -v.x },
    ;
    assert(magnitude(v.y as int) <= radius) by (nonlinear_arith)
        requires
            v.x * v.x + v.y * v.y <= radius * radius,
            radius >= 0,
            magnitude(v.y as int) == if v.y >= 0 { v.y as int } else { -v.y },
    ;
}

/// Rescaling a vector `(x, y)` no longer than `d` by the factor `k / d`,
/// rounding each component toward zero, gives a vector no longer than `k`.
pub proof fn lemma_rescale_within(x: int, y: int, d: int, k: int)
    requires
        d > 0,
        k >= 0,
        x * x + y * y <= d * d,
    ensures
        trunc_div(x * k, d) * trunc_div(x * k, d) + trunc_div(y * k, d) * trunc_div(y * k, d) <= k
            * k,
{
    let p = magnitude(trunc_div(x * k, d));
    let q = magnitude(trunc_div(y * k, d));
    let ax = magnitude(x);
    let ay = magnitude(y);
    lemma_trunc_div_bounds(x * k, d);
    lemma_trunc_div_bounds(y * k, d);
    lemma_product_magnitude(x, k);
    lemma_product_magnitude(y, k);
    let pp = p * p;
    let qq = q * q;
    let dd = d * d;
    let kk = k * k;
    let aa = ax * ax;
    let bb = ay * ay;
    assert(pp * dd <= aa * kk) by {
        lemma_square_le(p * d, ax * k);
        lemma_square_of_product(p, d);
        lemma_square_of_product(ax, k);
    }
    assert(qq * dd <= bb * kk) by {
        lemma_square_le(q * d, ay * k);
        lemma_square_of_product(q, d);
        lemma_square_of_product(ay, k);
    }
    assert(aa == x * x) by (nonlinear_arith)
        requires
            aa == ax * ax,
            ax == if x >= 0 { x } else { -x },
    ;
    assert(bb == y * y) by (nonlinear_arith)
        requires
            bb == ay * ay,
            ay == if y >= 0 { y } else { -y },
    ;
    assert(kk >= 0) by (nonlinear_arith)
        requires
            kk == k * k,
    ;
    assert((aa + bb) * kk <= dd * kk) by (nonlinear_arith)
        requires
            aa + bb <= dd,
            kk >= 0,
    ;
    assert((aa + bb) * kk == aa * kk + bb * kk) by (nonlinear_arith);
    assert((pp + qq) * dd == pp * dd + qq * dd) by (nonlinear_arith);
    assert(dd > 0) by (nonlinear_arith)
        requires
            dd == d * d,
            d > 0,
    ;
    assert(pp + qq <= kk) by (nonlinear_arith)
        requires
            (pp + qq) * dd <= kk * dd,
            dd > 0,
    ;
    assert(trunc_div(x * k, d) * trunc_div(x * k, d) == p * p) by (nonlinear_arith)
        requires
            p == if trunc_div(x * k, d) >= 0 { trunc_div(x * k, d) } else { -trunc_div(x * k, d) },
    ;
    assert(trunc_div(y * k, d) * trunc_div(y * k, d) == q * q) by (nonlinear_arith)
        requires
            q == if trunc_div(y * k, d) >= 0 { trunc_div(y * k, d) } else { -trunc_div(y * k, d) },
    ;
}

/// Rescaling a vector `(x, y)` whose length, rounded up, is `d` by the factor
/// `k / d` loses little: the result is longer than `k` minus three steps,
/// provided that `d` is at least `k`.
pub proof fn lemma_rescale_nearly(x: int, y: int, d: int, k: int)
    requires
        1 <= k <= d,
        (d - 1) * (d - 1) < x * x + y * y <= d * d,
    ensures
        trunc_div(x * k, d) * trunc_div(x * k, d) + trunc_div(y * k, d) * trunc_div(y * k, d) >= k
            * k - 6 * k,
{
    let a = magnitude(trunc_div(x * k, d));
    let b = magnitude(trunc_div(y * k, d));
    let ax = magnitude(x);
    let ay = magnitude(y);
    lemma_trunc_div_bounds(x * k, d);
    lemma_trunc_div_bounds(y * k, d);
    lemma_product_magnitude(x, k);
    lemma_product_magnitude(y, k);
    lemma_rescale_within(x, y, d, k);
    // the quotients, taken one step further, overshoot
    let u = (a + 1) * d;
    let v = (b + 1) * d;
    let p = ax * k;
    let q = ay * k;
    assert(u > p >= 0 && v > q >= 0) by (nonlinear_arith)
        requires
            p == ax * k,
            q == ay * k,
            ax >= 0,
            ay >= 0,
            k >= 1,
            p < u,
            q < v,
    ;
    assert(u * u > p * p && v * v > q * q) by (nonlinear_arith)
        requires
            u > p >= 0,
            v > q >= 0,
    ;
    lemma_square_of_product(a + 1, d);
    lemma_square_of_product(b + 1, d);
    lemma_square_of_product(ax, k);
    lemma_square_of_product(ay, k);
    let dd = d * d;
    let kk = k * k;
    let s = (a + 1) * (a + 1) + (b + 1) * (b + 1);
    let n = ax * ax + ay * ay;
    assert(n == x * x + y * y) by (nonlinear_arith)
        requires
            n == ax * ax + ay * ay,
            ax == if x >= 0 { x } else { -x },
            ay == if y >= 0 { y } else { -y },
    ;
    assert(s * dd > n * kk) by (nonlinear_arith)
        requires
            s == (a + 1) * (a + 1) + (b + 1) * (b + 1),
            n == ax * ax + ay * ay,
            ((a + 1) * (a + 1)) * dd > (ax * ax) * kk,
            ((b + 1) * (b + 1)) * dd > (ay * ay) * kk,
    ;
    let e = (d - 1) * (d - 1);
    assert(n * kk > e * kk) by (nonlinear_arith)
        requires
            n > e,
            kk == k * k,
            k >= 1,
    ;
    // were the sum of squares at most (k - 1) squared, d would be less than k
    let m = (k - 1) * (k - 1);
    assert(s > m) by {
        if s <= m {
            assert(s * dd <= m * dd) by (nonlinear_arith)
                requires
                    s <= m,
                    dd == d * d,
            ;
            lemma_square_of_product(d - 1, k);
            lemma_square_of_product(k - 1, d);
            let left = (d - 1) * k;
            let right = (k - 1) * d;
            assert(left < right) by (nonlinear_arith)
                requires
                    left * left < right * right,
                    left >= 0,
                    right >= 0,
            ;
            assert(left >= right) by (nonlinear_arith)
                requires
                    left == (d - 1) * k,
                    right == (k - 1) * d,
                    d >= k,
            ;
        }
    }
    assert(trunc_div(x * k, d) * trunc_div(x * k, d) == a * a) by (nonlinear_arith)
        requires
            a == if trunc_div(x * k, d) >= 0 { trunc_div(x * k, d) } else { -trunc_div(x * k, d) },
    ;
    assert(trunc_div(y * k, d) * trunc_div(y * k, d) == b * b) by (nonlinear_arith)
        requires
            b == if trunc_div(y * k, d) >= 0 { trunc_div(y * k, d) } else { -trunc_div(y * k, d) },
    ;
    assert(a <= k && b <= k) by (nonlinear_arith)
        requires
            a * a + b * b <= k * k,
            a >= 0,
            b >= 0,
            k >= 1,
    ;
    assert(a * a + b * b >= k * k - 6 * k) by (nonlinear_arith)
        requires
            s == (a + 1) * (a + 1) + (b + 1) * (b + 1),
            s > m,
            m == (k - 1) * (k - 1),
            0 <= a <= k,
            0 <= b <= k,
    ;
}

/// A normalized vector is a unit vector up to rounding: no longer than one
/// unit and, unless it is zero, no shorter than 0.997 units.
pub proof fn lemma_normalized_nearly_unit(v: Vec2)
    ensures
        v.normalized().norm_sq() <= SCALE * SCALE,
        v.norm_sq() != 0 ==> v.normalized().norm_sq() >= SCALE * SCALE - 6 * SCALE,
        v.norm_sq() == 0 ==> v.normalized() == (Vec2 { x: 0, y: 0 }),
        v.norm_sq() != 0 && v.fits(PRECISE_MAX as int) ==> {
            &&& v.normalized().x == trunc_div(
                v.x * (SCALE * SCALE),
                ceil_sqrt(v.norm_sq() * (SCALE * SCALE)),
            )
            &&& v.normalized().y == trunc_div(
                v.y * (SCALE * SCALE),
                ceil_sqrt(v.norm_sq() * (SCALE * SCALE)),
            )
            &&& ceil_sqrt(v.norm_sq() * (SCALE * SCALE)) >= SCALE
        },
        v.norm_sq() != 0 && !v.fits(PRECISE_MAX as int) ==> {
            &&& v.normalized().x == trunc_div(v.x * SCALE, v.len())
            &&& v.normalized().y == trunc_div(v.y * SCALE, v.len())
            &&& v.len() >= SCALE
        },
{
    lemma_square_bounds(v.x as int);
    lemma_square_bounds(v.y as int);
    let n = v.norm_sq();
    assert(SCALE * SCALE == 1_000_000);
    if n == 0 {
        let z = Vec2 { x: 0, y: 0 };
        assert(z.norm_sq() == 0) by (nonlinear_arith)
            requires
                z.x == 0,
                z.y == 0,
                z.norm_sq() == z.x * z.x + z.y * z.y,
        ;
    } else if v.fits(PRECISE_MAX as int) {
        let sx = v.x * SCALE;
        let sy = v.y * SCALE;
        let fine = n * (SCALE * SCALE);
        crate::fixed::lemma_ceil_sqrt_exists(fine);
        let d = ceil_sqrt(fine);
        assert(sx * sx + sy * sy == fine) by (nonlinear_arith)
            requires
                sx == v.x * SCALE,
                sy == v.y * SCALE,
                n == v.x * v.x + v.y * v.y,
                fine == n * (SCALE * SCALE),
        ;
        assert(sx * SCALE == v.x * (SCALE * SCALE) && sy * SCALE == v.y * (SCALE * SCALE))
            by (nonlinear_arith)
            requires
                sx == v.x * SCALE,
                sy == v.y * SCALE,
        ;
        assert(d >= SCALE) by {
            if d < SCALE {
                lemma_square_le(d, SCALE - 1);
            }
        }
        lemma_rescale_within(sx, sy, d, SCALE as int);
        lemma_rescale_nearly(sx, sy, d, SCALE as int);
        let qx = trunc_div(sx * SCALE, d);
        let qy = trunc_div(sy * SCALE, d);
        assert(-SCALE <= qx <= SCALE && -SCALE <= qy <= SCALE) by (nonlinear_arith)
            requires
                qx * qx + qy * qy <= SCALE * SCALE,
                SCALE == 1000,
        ;
    } else {
        crate::fixed::lemma_ceil_sqrt_exists(n);
        let d = ceil_sqrt(n);
        assert(d >= SCALE) by {
            if d < SCALE {
                lemma_square_le(d, SCALE - 1);
                if v.x > PRECISE_MAX || v.x < -PRECISE_MAX {
                    assert(v.x * v.x >= 1_000_000) by (nonlinear_arith)
                        requires
                            v.x > 1000 || v.x < -1000,
                    ;
                    assert(v.y * v.y >= 0) by (nonlinear_arith);
                } else {
                    assert(v.y * v.y >= 1_000_000) by (nonlinear_arith)
                        requires
                            v.y > 1000 || v.y < -1000,
                    ;
                    assert(v.x * v.x >= 0) by (nonlinear_arith);
                }
            }
        }
        lemma_rescale_within(v.x as int, v.y as int, d, SCALE as int);
        lemma_rescale_nearly(v.x as int, v.y as int, d, SCALE as int);
        let qx = trunc_div(v.x * SCALE, d);
        let qy = trunc_div(v.y * SCALE, d);
        assert(-SCALE <= qx <= SCALE && -SCALE <= qy <= SCALE) by (nonlinear_arith)
            requires
                qx * qx + qy * qy <= SCALE * SCALE,
                SCALE == 1000,
        ;
    }
}

/// The triangle inequality: the sum of a vector no longer than `a` and one no
/// longer than `b` is no longer than `a + b`.
pub proof fn lemma_triangle(ux: int, uy: int, vx: int, vy: int, a: int, b: int)
    requires
        a >= 0,
        b >= 0,
        ux * ux + uy * uy <= a * a,
        vx * vx + vy * vy <= b * b,
    ensures
        (ux + vx) * (ux + vx) + (uy + vy) * (uy + vy) <= (a + b) * (a + b),
{
    let uu = ux * ux + uy * uy;
    let vv = vx * vx + vy * vy;
    let uv = ux * vx + uy * vy;
    lemma_cauchy_schwarz(ux, uy, vx, vy);
    assert(uu >= 0 && vv >= 0) by (nonlinear_arith)
        requires
            uu == ux * ux + uy * uy,
            vv == vx * vx + vy * vy,
    ;
    assert(uu * vv <= (a * a) * (b * b)) by (nonlinear_arith)
        requires
            0 <= uu <= a * a,
            0 <= vv <= b * b,
    ;
    lemma_square_of_product(a, b);
    let ab = a * b;
    assert(ab >= 0) by (nonlinear_arith)
        requires
            ab == a * b,
            a >= 0,
            b >= 0,
    ;
    assert(uv <= ab) by (nonlinear_arith)
        requires
            uv * uv <= ab * ab,
            ab >= 0,
    ;
    assert((ux + vx) * (ux + vx) == ux * ux + 2 * (ux * vx) + vx * vx) by (nonlinear_arith);
    assert((uy + vy) * (uy + vy) == uy * uy + 2 * (uy * vy) + vy * vy) by (nonlinear_arith);
    assert((a + b) * (a + b) == a * a + 2 * (a * b) + b * b) by (nonlinear_arith);
}

/// The Cauchy-Schwarz inequality in the plane.
pub proof fn lemma_cauchy_schwarz(ux: int, uy: int, vx: int, vy: int)
    ensures
        (ux * vx + uy * vy) * (ux * vx + uy * vy) <= (ux * ux + uy * uy) * (vx * vx + vy * vy),
{
    let a = ux * vx;
    let b = uy * vy;
    let c = ux * vy;
    let e = uy * vx;
    lemma_square_of_product(ux, vx);
    lemma_square_of_product(uy, vy);
    lemma_square_of_product(ux, vy);
    lemma_square_of_product(uy, vx);
    assert(a * b == c * e) by (nonlinear_arith)
        requires
            a == ux * vx,
            b == uy * vy,
            c == ux * vy,
            e == uy * vx,
    ;
    let uxx = ux * ux;
    let uyy = uy * uy;
    let vxx = vx * vx;
    let vyy = vy * vy;
    assert((uxx + uyy) * (vxx + vyy) == uxx * vxx + uxx * vyy + uyy * vxx + uyy * vyy)
        by (nonlinear_arith);
    assert((a + b) * (a + b) == a * a + 2 * (a * b) + b * b) by (nonlinear_arith);
    assert((c - e) * (c - e) == c * c - 2 * (c * e) + e * e) by (nonlinear_arith);
    assert((c - e) * (c - e) >= 0) by (nonlinear_arith);
}

/// The square of a product is the product of the squares.
pub proof fn lemma_square_of_product(a: int, b: int)
    ensures
        (a * b) * (a * b) == (a * a) * (b * b),
{
    assert((a * b) * (a * b) == (a * a) * (b * b)) by (nonlinear_arith);
}

/// Squaring is monotone on the natural numbers.
pub proof fn lemma_square_le(a: int, b: int)
    requires
        0 <= a <= b,
    ensures
        a * a <= b * b,
{
    assert(a * a <= b * b) by (nonlinear_arith)
        requires
            0 <= a <= b,
    ;
}

/// The square of a 64-bit integer fits 126 bits.
pub proof fn lemma_square_bounds(a: int)
    requires
        i64::MIN <= a <= i64::MAX,
    ensures
        0 <= a * a <= 0x4000_0000_0000_0000_0000_0000_0000_0000,
{
    assert(0 <= a * a <= 0x8000_0000_0000_0000 * 0x8000_0000_0000_0000) by (nonlinear_arith)
        requires
            -0x8000_0000_0000_0000 <= a <= 0x8000_0000_0000_0000,
    ;
}

} // verus!
