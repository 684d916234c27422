//! Fixed-point scalars: an `i64` counts thousandths of a unit.
//!
//! Products and quotients are rounded toward zero, so that negating an
//! operand negates the result and rounding never increases a magnitude.
//! Square roots are rounded up, so that a computed length is never shorter
//! than the true one.
use vstd::prelude::*;

verus! {

/// Number of raw steps per unit: `1.0` is stored as `SCALE`.
pub const SCALE: i64 = 1000;

/// Largest magnitude of a vector component for which a length still fits an `i64`.
pub const COMPONENT_MAX: i64 = 0x4000_0000_0000_0000;

/// Largest magnitude of a coordinate or distance that the library handles.
pub const COORD_MAX: i64 = 0x1000_0000_0000_0000;

/// Quotient of `a` by a positive `b`, rounded toward zero.
pub open spec fn trunc_div(a: int, b: int) -> int {
    if a >= 0 {
        a / b
    } else {
        -((-a) / b)
    }
}

/// Fixed-point product of two raw values.
pub open spec fn fx_mul(a: int, b: int) -> int {
    trunc_div(a * b, SCALE as int)
}

/// Fixed-point quotient of a raw value by a positive raw value.
pub open spec fn fx_div(a: int, b: int) -> int {
    trunc_div(a * SCALE, b)
}

/// `r` is the least natural number whose square is at least `n`.
pub open spec fn is_ceil_sqrt(n: int, r: int) -> bool {
    &&& r >= 0
    &&& r * r >= n
    &&& (r == 0 || (r - 1) * (r - 1) < n)
}

/// The square root of `n`, rounded up.
pub open spec fn ceil_sqrt(n: int) -> int {
    choose|r: int| is_ceil_sqrt(n, r)
}

/// The absolute value of `a`.
pub open spec fn magnitude(a: int) -> int {
    if a >= 0 {
        a
    } else {
        -a
    }
}

/// At most one number is the rounded-up square root of `n`.
pub proof fn lemma_ceil_sqrt_unique(n: int, r1: int, r2: int)
    requires
        is_ceil_sqrt(n, r1),
        is_ceil_sqrt(n, r2),
    ensures
        r1 == r2,
{
    if r1 < r2 {
        assert(r1 * r1 <= (r2 - 1) * (r2 - 1)) by (nonlinear_arith)
            requires
                0 <= r1 <= r2 - 1,
        ;
    } else if r2 < r1 {
        assert(r2 * r2 <= (r1 - 1) * (r1 - 1)) by (nonlinear_arith)
            requires
                0 <= r2 <= r1 - 1,
        ;
    }
}

/// A number that meets the definition is the rounded-up square root.
pub proof fn lemma_ceil_sqrt_is(n: int, r: int)
    requires
        is_ceil_sqrt(n, r),
    ensures
        ceil_sqrt(n) == r,
{
    let c = choose|c: int| is_ceil_sqrt(n, c);
    lemma_ceil_sqrt_unique(n, c, r);
}

/// The rounded-up square root is monotone: a bound on `n` by a square bounds the root.
pub proof fn lemma_ceil_sqrt_le(n: int, r: int, b: int)
    requires
        is_ceil_sqrt(n, r),
        b >= 0,
        n <= b * b,
    ensures
        r <= b,
{
    if r > b {
        assert(b * b <= (r - 1) * (r - 1)) by (nonlinear_arith)
            requires
                0 <= b <= r - 1,
        ;
    }
}

/// A number whose rounded-up root is at most `b` is at most `b` squared.
pub proof fn lemma_square_le_root(n: int, r: int, b: int)
    requires
        r == ceil_sqrt(n),
        n >= 0,
        0 <= b,
        r <= b,
    ensures
        n <= b * b,
{
    lemma_ceil_sqrt_exists(n);
    assert(r * r <= b * b) by (nonlinear_arith)
        requires
            0 <= r <= b,
    ;
}

/// Every natural number has a rounded-up square root.
pub proof fn lemma_ceil_sqrt_exists(n: int)
    requires
        n >= 0,
    ensures
        is_ceil_sqrt(n, ceil_sqrt(n)),
    decreases n,
{
    if n == 0 {
        assert(is_ceil_sqrt(0, 0));
    } else {
        lemma_ceil_sqrt_exists(n - 1);
        let r = ceil_sqrt(n - 1);
        if r * r >= n {
            assert(r != 0) by (nonlinear_arith)
                requires
                    r * r >= n,
                    n > 0,
            ;
            assert(is_ceil_sqrt(n, r));
        } else {
            assert((r + 1) * (r + 1) >= n) by (nonlinear_arith)
                requires
                    r * r >= n - 1,
                    r >= 0,
            ;
            assert(is_ceil_sqrt(n, r + 1));
        }
    }
}

/// Rounding toward zero never increases a magnitude, and the quotient times
/// the divisor stays within the dividend's magnitude.
pub proof fn lemma_trunc_div_bounds(a: int, b: int)
    requires
        b > 0,
    ensures
        magnitude(trunc_div(a, b)) * b <= magnitude(a),
        magnitude(a) < (magnitude(trunc_div(a, b)) + 1) * b,
        magnitude(trunc_div(a, b)) <= magnitude(a),
        a >= 0 ==> trunc_div(a, b) >= 0,
        a <= 0 ==> trunc_div(a, b) <= 0,
        trunc_div(-a, b) == -trunc_div(a, b),
{
    let m = magnitude(a);
    let q = m / b;
    assert(q * b <= m && m < (q + 1) * b && 0 <= q <= m) by (nonlinear_arith)
        requires
            b > 0,
            m >= 0,
            q == m / b,
    ;
    if a == 0 {
        assert(0int / b == 0) by (nonlinear_arith)
            requires
                b > 0,
        ;
    }
}

/// Divides `a` by a positive `b`, rounding toward zero.
pub fn div_toward_zero(a: i128, b: i128) -> (q: i128)
    requires
        b > 0,
        a > i128::MIN,
    ensures
        q == trunc_div(a as int, b as int),
{
    if a >= 0 {
        a / b
    } else {
        -((-a) / b)
    }
}

/// Divides `a` by a positive `b`, rounding down.
pub fn div_floor(a: i128, b: i128) -> (q: i128)
    requires
        b > 0,
        a > i128::MIN,
    ensures
        q == (a as int) / (b as int),
{
    if a >= 0 {
        a / b
    } else {
        let n: i128 = -(a + 1);
        let m: i128 = n / b;
        proof {
            let ai = a as int;
            let bi = b as int;
            vstd::arithmetic::div_mod::lemma_fundamental_div_mod(n as int, bi);
            let r = (n as int) % bi;
            assert(ai == bi * (-(m + 1)) + (bi - 1 - r)) by (nonlinear_arith)
                requires
                    n == bi * m + r,
                    n == -(ai + 1),
            ;
            vstd::arithmetic::div_mod::lemma_fundamental_div_mod_converse(
                ai,
                bi,
                -(m + 1),
                bi - 1 - r,
            );
        }
        -(m + 1)
    }
}

/// Fixed-point product, rounded toward zero.
pub fn mul_fixed(a: i64, b: i64) -> (r: i64)
    requires
        magnitude(a as int) * magnitude(b as int) <= i64::MAX * SCALE,
    ensures
        r == fx_mul(a as int, b as int),
{
    proof {
        lemma_product_magnitude(a as int, b as int);
        lemma_trunc_div_bounds(a * b, SCALE as int);
    }
    let p: i128 = (a as i128) * (b as i128);
    let q: i128 = div_toward_zero(p, SCALE as i128);
    q as i64
}

/// Fixed-point quotient by a positive divisor, rounded toward zero.
pub fn div_fixed(a: i64, b: i64) -> (r: i64)
    requires
        b > 0,
        magnitude(a as int) * SCALE <= i64::MAX * b,
    ensures
        r == fx_div(a as int, b as int),
{
    let p: i128 = (a as i128) * (SCALE as i128);
    proof {
        lemma_trunc_div_bounds(p as int, b as int);
        let q = magnitude(trunc_div(p as int, b as int));
        assert(q <= i64::MAX) by (nonlinear_arith)
            requires
                q * b <= magnitude(a as int) * SCALE,
                magnitude(a as int) * SCALE <= i64::MAX * b,
                b > 0,
        ;
    }
    let q: i128 = div_toward_zero(p, b as i128);
    q as i64
}

/// The magnitude of a product is the product of the magnitudes.
pub proof fn lemma_product_magnitude(a: int, b: int)
    ensures
        magnitude(a * b) == magnitude(a) * magnitude(b),
{
    assert(magnitude(a * b) == magnitude(a) * magnitude(b)) by (nonlinear_arith)
        requires
            magnitude(a) == if a >= 0 { a } else { -a },
            magnitude(b) == if b >= 0 { b } else { -b },
            magnitude(a * b) == if a * b >= 0 { a * b } else { -(a * b) },
    ;
}

/// Square root of `n`, rounded up.
pub fn ceil_sqrt_u64(n: u64) -> (r: u64)
    ensures
        is_ceil_sqrt(n as int, r as int),
        r == ceil_sqrt(n as int),
        r <= 0x1_0000_0000,
{
    if n == 0 {
        proof {
            lemma_ceil_sqrt_is(0, 0);
        }
        return 0;
    }
    let mut lo: u64 = 0;
    let mut hi: u64 = 0x1_0000_0000;
    assert(hi * hi >= n) by (nonlinear_arith)
        requires
            hi == 0x1_0000_0000,
            n <= u64::MAX,
    ;
    while hi - lo > 1
        invariant
            lo < hi <= 0x1_0000_0000,
            lo * lo < n,
            hi * hi >= n,
        decreases hi - lo,
    {
        let mid: u64 = lo + (hi - lo) / 2;
        assert(mid * mid <= 0xFFFF_FFFF * 0xFFFF_FFFF) by (nonlinear_arith)
            requires
                0 <= mid <= 0xFFFF_FFFF,
        ;
        if mid * mid >= n {
            hi = mid;
        } else {
            lo = mid;
        }
    }
    proof {
        lemma_ceil_sqrt_is(n as int, hi as int);
    }
    hi
}

/// Square root of `n`, rounded up.
pub fn ceil_sqrt_u128(n: u128) -> (r: u128)
    ensures
        is_ceil_sqrt(n as int, r as int),
        r == ceil_sqrt(n as int),
        r <= 0x1_0000_0000_0000_0000,
{
    if n <= 0xFFFF_FFFF_FFFF_FFFF {
        return ceil_sqrt_u64(n as u64) as u128;
    }
    let mut lo: u128 = 0xFFFF_FFFF;
    let mut hi: u128 = 0x1_0000_0000_0000_0000;
    assert(hi * hi >= n) by (nonlinear_arith)
        requires
            hi == 0x1_0000_0000_0000_0000,
            n <= u128::MAX,
    ;
    while hi - lo > 1
        invariant
            lo < hi <= 0x1_0000_0000_0000_0000,
            lo * lo < n,
            hi * hi >= n,
        decreases hi - lo,
    {
        let mid: u128 = lo + (hi - lo) / 2;
        assert(mid * mid <= 0xFFFF_FFFF_FFFF_FFFF * 0xFFFF_FFFF_FFFF_FFFF) by (nonlinear_arith)
            requires
                0 <= mid <= 0xFFFF_FFFF_FFFF_FFFF,
        ;
        if mid * mid >= n {
            hi = mid;
        } else {
            lo = mid;
        }
    }
    proof {
        lemma_ceil_sqrt_is(n as int, hi as int);
    }
    hi
}

} // verus!
