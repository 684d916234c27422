//! Three-by-three matrices for transformations of the plane, applied to row
//! vectors: the third row holds the translation.
use vstd::prelude::*;
use crate::fixed::{SCALE, fx_mul, mul_fixed, magnitude, lemma_trunc_div_bounds,
    lemma_product_magnitude};
use crate::vec2::Vec2;

verus! {

/// A matrix of fixed-point numbers.
#[derive(Debug, Clone, Copy, PartialEq, Eq, Structural)]
pub struct C2DMatrix {
    pub _11: i64,
    pub _12: i64,
    pub _13: i64,
    pub _21: i64,
    pub _22: i64,
    pub _23: i64,
    pub _31: i64,
    pub _32: i64,
    pub _33: i64,
}

/// The sum of the fixed-point products of a row and a column.
pub open spec fn row_by_column(a1: int, a2: int, a3: int, b1: int, b2: int, b3: int) -> int {
    fx_mul(a1, b1) + fx_mul(a2, b2) + fx_mul(a3, b3)
}

/// The three products of a row and a column, and their sum, fit 64 bits.
pub open spec fn product_fits(a1: int, a2: int, a3: int, b1: int, b2: int, b3: int) -> bool {
    &&& magnitude(a1) * magnitude(b1) <= i64::MAX * SCALE
    &&& magnitude(a2) * magnitude(b2) <= i64::MAX * SCALE
    &&& magnitude(a3) * magnitude(b3) <= i64::MAX * SCALE
    &&& i64::MIN <= row_by_column(a1, a2, a3, b1, b2, b3) <= i64::MAX
}

/// The matrix that takes the x axis to `fwd` and the y axis to `side`.
pub open spec fn rotation(fwd: Vec2, side: Vec2) -> C2DMatrix {
    C2DMatrix {
        _11: fwd.x,
        _12: fwd.y,
        _13: 0,
        _21: side.x,
        _22: side.y,
        _23: 0,
        _31: 0,
        _32: 0,
        _33: SCALE,
    }
}

/// The matrix that moves every point by `(x, y)`.
pub open spec fn translation(x: i64, y: i64) -> C2DMatrix {
    C2DMatrix {
        _11: SCALE,
        _12: 0,
        _13: 0,
        _21: 0,
        _22: SCALE,
        _23: 0,
        _31: x,
        _32: y,
        _33: SCALE,
    }
}

impl C2DMatrix {
    /// Every entry has magnitude at most `bound`.
    pub open spec fn fits(&self, bound: int) -> bool {
        &&& -bound <= self._11 <= bound
        &&& -bound <= self._12 <= bound
        &&& -bound <= self._13 <= bound
        &&& -bound <= self._21 <= bound
        &&& -bound <= self._22 <= bound
        &&& -bound <= self._23 <= bound
        &&& -bound <= self._31 <= bound
        &&& -bound <= self._32 <= bound
        &&& -bound <= self._33 <= bound
    }

    /// Every entry of the product `self * m` can be computed in 64 bits.
    pub open spec fn can_multiply(&self, m: C2DMatrix) -> bool {
        &&& product_fits(
            self._11 as int,
            self._12 as int,
            self._13 as int,
            m._11 as int,
            m._21 as int,
            m._31 as int,
        )
        &&& product_fits(
            self._11 as int,
            self._12 as int,
            self._13 as int,
            m._12 as int,
            m._22 as int,
            m._32 as int,
        )
        &&& product_fits(
            self._11 as int,
            self._12 as int,
            self._13 as int,
            m._13 as int,
            m._23 as int,
            m._33 as int,
        )
        &&& product_fits(
            self._21 as int,
            self._22 as int,
            self._23 as int,
            m._11 as int,
            m._21 as int,
            m._31 as int,
        )
        &&& product_fits(
            self._21 as int,
            self._22 as int,
            self._23 as int,
            m._12 as int,
            m._22 as int,
            m._32 as int,
        )
        &&& product_fits(
            self._21 as int,
            self._22 as int,
            self._23 as int,
            m._13 as int,
            m._23 as int,
            m._33 as int,
        )
        &&& product_fits(
            self._31 as int,
            self._32 as int,
            self._33 as int,
            m._11 as int,
            m._21 as int,
            m._31 as int,
        )
        &&& product_fits(
            self._31 as int,
            self._32 as int,
            self._33 as int,
            m._12 as int,
            m._22 as int,
            m._32 as int,
        )
        &&& product_fits(
            self._31 as int,
            self._32 as int,
            self._33 as int,
            m._13 as int,
            m._23 as int,
            m._33 as int,
        )
    }

    /// The image of `p` can be computed in 64 bits.
    pub open spec fn can_transform(&self, p: Vec2) -> bool {
        &&& magnitude(self._11 as int) * magnitude(p.x as int) <= i64::MAX * SCALE
        &&& magnitude(self._21 as int) * magnitude(p.y as int) <= i64::MAX * SCALE
        &&& magnitude(self._12 as int) * magnitude(p.x as int) <= i64::MAX * SCALE
        &&& magnitude(self._22 as int) * magnitude(p.y as int) <= i64::MAX * SCALE
        &&& i64::MIN <= fx_mul(self._11 as int, p.x as int) + fx_mul(self._21 as int, p.y as int)
            + self._31 <= i64::MAX
        &&& i64::MIN <= fx_mul(self._12 as int, p.x as int) + fx_mul(self._22 as int, p.y as int)
            + self._32 <= i64::MAX
    }

    /// The matrix product `self * m`, each product rounded toward zero.
    pub open spec fn times(&self, m: C2DMatrix) -> C2DMatrix {
        C2DMatrix {
            _11: row_by_column(
                self._11 as int,
                self._12 as int,
                self._13 as int,
                m._11 as int,
                m._21 as int,
                m._31 as int,
            ) as i64,
            _12: row_by_column(
                self._11 as int,
                self._12 as int,
                self._13 as int,
                m._12 as int,
                m._22 as int,
                m._32 as int,
            ) as i64,
            _13: row_by_column(
                self._11 as int,
                self._12 as int,
                self._13 as int,
                m._13 as int,
                m._23 as int,
                m._33 as int,
            ) as i64,
            _21: row_by_column(
                self._21 as int,
                self._22 as int,
                self._23 as int,
                m._11 as int,
                m._21 as int,
                m._31 as int,
            ) as i64,
            _22: row_by_column(
                self._21 as int,
                self._22 as int,
                self._23 as int,
                m._12 as int,
                m._22 as int,
                m._32 as int,
            ) as i64,
            _23: row_by_column(
                self._21 as int,
                self._22 as int,
                self._23 as int,
                m._13 as int,
                m._23 as int,
                m._33 as int,
            ) as i64,
            _31: row_by_column(
                self._31 as int,
                self._32 as int,
                self._33 as int,
                m._11 as int,
                m._21 as int,
                m._31 as int,
            ) as i64,
            _32: row_by_column(
                self._31 as int,
                self._32 as int,
                self._33 as int,
                m._12 as int,
                m._22 as int,
                m._32 as int,
            ) as i64,
            _33: row_by_column(
                self._31 as int,
                self._32 as int,
                self._33 as int,
                m._13 as int,
                m._23 as int,
                m._33 as int,
            ) as i64,
        }
    }

    /// The image of the point `p`.
    pub open spec fn transformed(&self, p: Vec2) -> Vec2 {
        Vec2 {
            x: (fx_mul(self._11 as int, p.x as int) + fx_mul(self._21 as int, p.y as int)
                + self._31) as i64,
            y: (fx_mul(self._12 as int, p.x as int) + fx_mul(self._22 as int, p.y as int)
                + self._32) as i64,
        }
    }

    /// The matrix that leaves every point where it is.
    pub fn identity() -> (m: Self)
        ensures
            m == translation(0, 0),
            m.fits(SCALE as int),
    {
        C2DMatrix {
            _11: SCALE,
            _12: 0,
            _13: 0,
            _21: 0,
            _22: SCALE,
            _23: 0,
            _31: 0,
            _32: 0,
            _33: SCALE,
        }
    }

    /// The product `self * mIn`.
    pub fn MatrixMultiply(&self, mIn: C2DMatrix) -> (m: C2DMatrix)
        requires
            self.can_multiply(mIn),
        ensures
            m == self.times(mIn),
    {
        C2DMatrix {
            _11: entry(self._11, self._12, self._13, mIn._11, mIn._21, mIn._31),
            _12: entry(self._11, self._12, self._13, mIn._12, mIn._22, mIn._32),
            _13: entry(self._11, self._12, self._13, mIn._13, mIn._23, mIn._33),
            _21: entry(self._21, self._22, self._23, mIn._11, mIn._21, mIn._31),
            _22: entry(self._21, self._22, self._23, mIn._12, mIn._22, mIn._32),
            _23: entry(self._21, self._22, self._23, mIn._13, mIn._23, mIn._33),
            _31: entry(self._31, self._32, self._33, mIn._11, mIn._21, mIn._31),
            _32: entry(self._31, self._32, self._33, mIn._12, mIn._22, mIn._32),
            _33: entry(self._31, self._32, self._33, mIn._13, mIn._23, mIn._33),
        }
    }

    /// This matrix followed by the rotation that takes the x axis to `fwd`
    /// and the y axis to `side`.
    pub fn Rotate(&self, fwd: Vec2, side: Vec2) -> (m: C2DMatrix)
        requires
            self.can_multiply(rotation(fwd, side)),
        ensures
            m == self.times(rotation(fwd, side)),
    {
        let mat = C2DMatrix {
            _11: fwd.x,
            _12: fwd.y,
            _13: 0,
            _21: side.x,
            _22: side.y,
            _23: 0,
            _31: 0,
            _32: 0,
            _33: SCALE,
        };
        self.MatrixMultiply(mat)
    }

    /// This matrix followed by the translation by `(x, y)`.
    pub fn Translate(&self, x: i64, y: i64) -> (m: C2DMatrix)
        requires
            self.can_multiply(translation(x, y)),
        ensures
            m == self.times(translation(x, y)),
    {
        let mat = C2DMatrix {
            _11: SCALE,
            _12: 0,
            _13: 0,
            _21: 0,
            _22: SCALE,
            _23: 0,
            _31: x,
            _32: y,
            _33: SCALE,
        };
        self.MatrixMultiply(mat)
    }

    /// Applies the matrix to the point `vPoint`.
    pub fn TransformVector2Ds(&self, vPoint: Vec2) -> (p: Vec2)
        requires
            self.can_transform(vPoint),
        ensures
            p == self.transformed(vPoint),
    {
        let x: i128 = (mul_fixed(self._11, vPoint.x) as i128) + (mul_fixed(self._21, vPoint.y) as i128)
            + (self._31 as i128);
        let y: i128 = (mul_fixed(self._12, vPoint.x) as i128) + (mul_fixed(self._22, vPoint.y) as i128)
            + (self._32 as i128);
        Vec2 { x: x as i64, y: y as i64 }
    }
}

/// One entry of a matrix product.
fn entry(a1: i64, a2: i64, a3: i64, b1: i64, b2: i64, b3: i64) -> (e: i64)
    requires
        product_fits(a1 as int, a2 as int, a3 as int, b1 as int, b2 as int, b3 as int),
    ensures
        e == row_by_column(a1 as int, a2 as int, a3 as int, b1 as int, b2 as int, b3 as int),
{
    let sum: i128 = (mul_fixed(a1, b1) as i128) + (mul_fixed(a2, b2) as i128) + (mul_fixed(a3, b3) as i128);
    sum as i64
}

/// A row and a column whose entries are bounded by `own` and `other` can be
/// multiplied if three times the product of the bounds fits.
pub proof fn lemma_bounded_product_fits(
    a1: int,
    a2: int,
    a3: int,
    b1: int,
    b2: int,
    b3: int,
    own: int,
    other: int,
)
    requires
        -own <= a1 <= own,
        -own <= a2 <= own,
        -own <= a3 <= own,
        -other <= b1 <= other,
        -other <= b2 <= other,
        -other <= b3 <= other,
        3 * (own * other) <= i64::MAX * SCALE,
    ensures
        product_fits(a1, a2, a3, b1, b2, b3),
{
    lemma_bounded_product(a1, b1, own, other);
    lemma_bounded_product(a2, b2, own, other);
    lemma_bounded_product(a3, b3, own, other);
    let p = own * other;
    let q1 = magnitude(fx_mul(a1, b1));
    let q2 = magnitude(fx_mul(a2, b2));
    let q3 = magnitude(fx_mul(a3, b3));
    assert(q1 + q2 + q3 <= i64::MAX) by (nonlinear_arith)
        requires
            q1 * SCALE <= p,
            q2 * SCALE <= p,
            q3 * SCALE <= p,
            3 * p <= i64::MAX * SCALE,
            SCALE == 1000,
    ;
}

/// Matrices whose entries are bounded by `own` and `other` can be
/// multiplied if three times the product of the bounds fits.
pub proof fn lemma_bounded_can_multiply(a: C2DMatrix, b: C2DMatrix, own: int, other: int)
    requires
        a.fits(own),
        b.fits(other),
        3 * (own * other) <= i64::MAX * SCALE,
    ensures
        a.can_multiply(b),
{
    lemma_bounded_product_fits(
        a._11 as int, a._12 as int, a._13 as int, b._11 as int, b._21 as int, b._31 as int, own, other);
    lemma_bounded_product_fits(
        a._11 as int, a._12 as int, a._13 as int, b._12 as int, b._22 as int, b._32 as int, own, other);
    lemma_bounded_product_fits(
        a._11 as int, a._12 as int, a._13 as int, b._13 as int, b._23 as int, b._33 as int, own, other);
    lemma_bounded_product_fits(
        a._21 as int, a._22 as int, a._23 as int, b._11 as int, b._21 as int, b._31 as int, own, other);
    lemma_bounded_product_fits(
        a._21 as int, a._22 as int, a._23 as int, b._12 as int, b._22 as int, b._32 as int, own, other);
    lemma_bounded_product_fits(
        a._21 as int, a._22 as int, a._23 as int, b._13 as int, b._23 as int, b._33 as int, own, other);
    lemma_bounded_product_fits(
        a._31 as int, a._32 as int, a._33 as int, b._11 as int, b._21 as int, b._31 as int, own, other);
    lemma_bounded_product_fits(
        a._31 as int, a._32 as int, a._33 as int, b._12 as int, b._22 as int, b._32 as int, own, other);
    lemma_bounded_product_fits(
        a._31 as int, a._32 as int, a._33 as int, b._13 as int, b._23 as int, b._33 as int, own, other);
}

/// The fixed-point product of two bounded numbers is bounded.
pub proof fn lemma_bounded_product(a: int, b: int, own: int, other: int)
    requires
        -own <= a <= own,
        -other <= b <= other,
    ensures
        0 <= magnitude(a) * magnitude(b) <= own * other,
        magnitude(fx_mul(a, b)) * SCALE <= own * other,
{
    assert(0 <= magnitude(a) * magnitude(b) <= own * other) by (nonlinear_arith)
        requires
            0 <= magnitude(a) <= own,
            0 <= magnitude(b) <= other,
    ;
    lemma_product_magnitude(a, b);
    lemma_trunc_div_bounds(a * b, SCALE as int);
}

/// The matrix that brings a point from the frame with axes `fwd` and `side`
/// and origin `(x, y)` into the world: the identity, rotated, then translated.
pub open spec fn local_frame(fwd: Vec2, side: Vec2, x: i64, y: i64) -> C2DMatrix {
    translation(0, 0).times(rotation(fwd, side)).times(translation(x, y))
}

/// The matrix of a local frame holds the axes in its first two rows and the
/// origin in its third.
pub proof fn lemma_local_frame(fwd: Vec2, side: Vec2, x: i64, y: i64)
    ensures
        translation(0, 0).times(rotation(fwd, side)) == rotation(fwd, side),
        local_frame(fwd, side, x, y) == (C2DMatrix {
            _11: fwd.x,
            _12: fwd.y,
            _13: 0,
            _21: side.x,
            _22: side.y,
            _23: 0,
            _31: x,
            _32: y,
            _33: SCALE,
        }),
{
    lemma_one_and_zero(fwd.x as int);
    lemma_one_and_zero(fwd.y as int);
    lemma_one_and_zero(side.x as int);
    lemma_one_and_zero(side.y as int);
    lemma_one_and_zero(x as int);
    lemma_one_and_zero(y as int);
    lemma_one_and_zero(0);
    lemma_one_and_zero(SCALE as int);
}

/// Multiplying by one changes nothing and multiplying by zero gives zero.
pub proof fn lemma_one_and_zero(a: int)
    ensures
        fx_mul(SCALE as int, a) == a,
        fx_mul(a, SCALE as int) == a,
        fx_mul(0, a) == 0,
        fx_mul(a, 0) == 0,
{
    crate::smoother::lemma_trunc_div_multiple(SCALE as int, a);
    assert(a * SCALE == SCALE * a) by (nonlinear_arith);
    assert(0 * a == 0 && a * 0 == 0) by (nonlinear_arith);
}

} // verus!
