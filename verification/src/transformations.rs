//! Changes of coordinate frame.
use vstd::prelude::*;
use crate::fixed::{SCALE, COORD_MAX, fx_mul, magnitude, lemma_trunc_div_bounds,
    lemma_product_magnitude};
use crate::vec2::{Vec2, lemma_within_fits};
use crate::c2d_matrix::{C2DMatrix, rotation, translation, lemma_local_frame,
    lemma_bounded_can_multiply};

verus! {

/// The world coordinates of `point`, which is given in the local frame of an
/// agent with the given heading, side vector and position.
pub open spec fn point_to_world(point: Vec2, heading: Vec2, side: Vec2, position: Vec2) -> Vec2 {
    Vec2 {
        x: (fx_mul(heading.x as int, point.x as int) + fx_mul(side.x as int, point.y as int)
            + position.x) as i64,
        y: (fx_mul(heading.y as int, point.x as int) + fx_mul(side.y as int, point.y as int)
            + position.y) as i64,
    }
}

/// The product of a unit-vector component and a bounded value is bounded.
pub proof fn lemma_unit_product(u: int, p: int, bound: int)
    requires
        -SCALE <= u <= SCALE,
        -bound <= p <= bound,
        0 <= bound,
    ensures
        magnitude(u) * magnitude(p) <= SCALE * bound,
        -bound <= fx_mul(u, p) <= bound,
{
    assert(magnitude(u) * magnitude(p) <= SCALE * bound) by (nonlinear_arith)
        requires
            0 <= magnitude(u) <= SCALE,
            0 <= magnitude(p) <= bound,
    ;
    lemma_product_magnitude(u, p);
    lemma_trunc_div_bounds(u * p, SCALE as int);
    let q = magnitude(fx_mul(u, p));
    assert(q <= bound) by (nonlinear_arith)
        requires
            q * SCALE <= SCALE * bound,
    ;
}

/// Transforms `point` from the local frame of an agent into world space:
/// rotates it by the agent's heading and side vectors and moves it by the
/// agent's position.
pub fn PointToWorldSpace(point: Vec2, AgentHeading: Vec2, AgentSide: Vec2, AgentPosition: Vec2) -> (r:
    Vec2)
    requires
        AgentHeading.within(SCALE as int),
        AgentSide.within(SCALE as int),
        point.fits(COORD_MAX as int),
        AgentPosition.fits(COORD_MAX as int),
    ensures
        r == point_to_world(point, AgentHeading, AgentSide, AgentPosition),
        r.x - AgentPosition.x == fx_mul(AgentHeading.x as int, point.x as int) + fx_mul(
            AgentSide.x as int,
            point.y as int,
        ),
        r.y - AgentPosition.y == fx_mul(AgentHeading.y as int, point.x as int) + fx_mul(
            AgentSide.y as int,
            point.y as int,
        ),
{
    proof {
        lemma_within_fits(AgentHeading, SCALE as int);
        lemma_within_fits(AgentSide, SCALE as int);
        lemma_unit_product(AgentHeading.x as int, point.x as int, COORD_MAX as int);
        lemma_unit_product(AgentSide.x as int, point.y as int, COORD_MAX as int);
        lemma_unit_product(AgentHeading.y as int, point.x as int, COORD_MAX as int);
        lemma_unit_product(AgentSide.y as int, point.y as int, COORD_MAX as int);
    }
    // create a transformation matrix: rotate, then translate
    let mut matTransform = C2DMatrix::identity();
    proof {
        lemma_local_frame(AgentHeading, AgentSide, AgentPosition.x, AgentPosition.y);
        lemma_bounded_can_multiply(
            matTransform,
            rotation(AgentHeading, AgentSide),
            SCALE as int,
            SCALE as int,
        );
        lemma_bounded_can_multiply(
            rotation(AgentHeading, AgentSide),
            translation(AgentPosition.x, AgentPosition.y),
            SCALE as int,
            COORD_MAX as int,
        );
    }
    matTransform = matTransform.Rotate(AgentHeading, AgentSide);
    matTransform = matTransform.Translate(AgentPosition.x, AgentPosition.y);
    // now transform the point
    matTransform.TransformVector2Ds(point)
}

} // verus!
