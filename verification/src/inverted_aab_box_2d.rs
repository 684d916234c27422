//! Axis-aligned boxes in a coordinate system whose y axis grows downward.
use vstd::prelude::*;
use crate::fixed::{trunc_div, div_toward_zero, lemma_trunc_div_bounds};
use crate::vec2::Vec2;

verus! {

/// A box given by its top-left and bottom-right corners.
#[derive(Clone, Copy, Debug)]
pub struct InvertedAABBox2D {
    pub m_vTopLeft: Vec2,
    pub m_vBottomRight: Vec2,
    pub m_vCenter: Vec2,
}

/// The midpoint of `a` and `b`, rounded toward zero.
pub open spec fn midpoint(a: int, b: int) -> int {
    trunc_div(a + b, 2)
}

fn midpoint_of(a: i64, b: i64) -> (m: i64)
    ensures
        m == midpoint(a as int, b as int),
{
    proof {
        lemma_trunc_div_bounds(a + b, 2);
    }
    let m: i128 = div_toward_zero((a as i128) + (b as i128), 2);
    m as i64
}

impl InvertedAABBox2D {
    /// The boxes share at least one point, edges included.
    pub open spec fn overlaps(&self, other: &InvertedAABBox2D) -> bool {
        !(other.m_vTopLeft.y > self.m_vBottomRight.y || other.m_vBottomRight.y < self.m_vTopLeft.y
            || other.m_vTopLeft.x > self.m_vBottomRight.x || other.m_vBottomRight.x
            < self.m_vTopLeft.x)
    }

    /// The point lies in the box, edges included.
    pub open spec fn contains(&self, p: Vec2) -> bool {
        self.m_vTopLeft.x <= p.x <= self.m_vBottomRight.x && self.m_vTopLeft.y <= p.y
            <= self.m_vBottomRight.y
    }

    /// The box with the given corners; its centre is their midpoint.
    pub fn new(top_left: Vec2, bottom_right: Vec2) -> (b: InvertedAABBox2D)
        ensures
            b.m_vTopLeft == top_left,
            b.m_vBottomRight == bottom_right,
            b.m_vCenter.x == midpoint(top_left.x as int, bottom_right.x as int),
            b.m_vCenter.y == midpoint(top_left.y as int, bottom_right.y as int),
    {
        InvertedAABBox2D {
            m_vTopLeft: top_left,
            m_vBottomRight: bottom_right,
            m_vCenter: Vec2 {
                x: midpoint_of(top_left.x, bottom_right.x),
                y: midpoint_of(top_left.y, bottom_right.y),
            },
        }
    }

    /// Whether the box `other` intersects this one.
    pub fn isOverlappedWith(&self, other: &InvertedAABBox2D) -> (r: bool)
        ensures
            r == self.overlaps(other),
    {
        !((other.m_vTopLeft.y > self.m_vBottomRight.y) || (other.m_vBottomRight.y
            < self.m_vTopLeft.y) || (other.m_vTopLeft.x > self.m_vBottomRight.x) || (
        other.m_vBottomRight.x < self.m_vTopLeft.x))
    }

    /// The y coordinate of the upper edge.
    pub fn top(&self) -> (r: i64)
        ensures
            r == self.m_vTopLeft.y,
    {
        self.m_vTopLeft.y
    }

    /// The x coordinate of the left edge.
    pub fn left(&self) -> (r: i64)
        ensures
            r == self.m_vTopLeft.x,
    {
        self.m_vTopLeft.x
    }

    /// The y coordinate of the lower edge.
    pub fn bottom(&self) -> (r: i64)
        ensures
            r == self.m_vBottomRight.y,
    {
        self.m_vBottomRight.y
    }

    /// The x coordinate of the right edge.
    pub fn right(&self) -> (r: i64)
        ensures
            r == self.m_vBottomRight.x,
    {
        self.m_vBottomRight.x
    }
}

} // verus!
