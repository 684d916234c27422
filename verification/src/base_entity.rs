//! An entity that does not move, such as an obstacle.
use vstd::prelude::*;
use crate::fixed::{SCALE, fx_mul, fx_div, mul_fixed, div_fixed, magnitude, lemma_trunc_div_bounds,
    lemma_product_magnitude};
use crate::configuration::SCALAR_MAX;
use crate::vec2::Vec2;
use crate::entity_traits::EntityBase;

verus! {

/// The basic state of every entity.
#[derive(Debug, Clone, Copy)]
pub struct BaseEntity {
    /// Each entity has an identifier.
    pub id: i32,
    /// The kind of entity.
    pub entity_type: i32,
    /// A generic flag.
    pub tag: bool,
    /// Its location in the environment.
    pub position: Vec2,
    /// A vector pointing in the direction the entity is heading.
    pub heading: Vec2,
    /// A vector perpendicular to the heading.
    pub side_vec: Vec2,
    pub scale: Vec2,
    /// The length of the entity's bounding radius.
    pub bounding_radius: i64,
}

/// The larger of two numbers.
pub open spec fn larger(a: int, b: int) -> int {
    if a > b {
        a
    } else {
        b
    }
}

/// The bounding radius after the scale changes from `from` to `to`: the
/// radius times the ratio of the larger components, or the radius itself
/// where the old scale has no positive component.
pub open spec fn rescaled_radius(radius: int, from: Vec2, to: Vec2) -> int {
    if larger(from.x as int, from.y as int) > 0 {
        fx_mul(
            radius,
            fx_div(larger(to.x as int, to.y as int), larger(from.x as int, from.y as int)),
        )
    } else {
        radius
    }
}

impl BaseEntity {
    /// An untagged entity with scale zero; its side vector is its heading
    /// turned by a quarter turn.
    pub fn new(id: i32, entity_type: i32, pos: Vec2, heading: Vec2, bounding_radius: i64) -> (e: Self)
        requires
            heading.y > i64::MIN,
        ensures
            e == (BaseEntity {
                id,
                entity_type,
                tag: false,
                position: pos,
                heading,
                side_vec: heading.perp_spec(),
                scale: Vec2 { x: 0, y: 0 },
                bounding_radius,
            }),
    {
        BaseEntity {
            id,
            entity_type,
            tag: false,
            position: pos,
            heading,
            side_vec: heading.perp(),
            scale: Vec2 { x: 0, y: 0 },
            bounding_radius,
        }
    }

    /// The direction the entity is heading.
    pub fn heading(&self) -> (r: Vec2)
        ensures
            r == self.heading,
    {
        self.heading
    }

    /// Changes the kind of the entity.
    pub fn set_entity_type(&mut self, new_type: i32)
        ensures
            *final(self) == (BaseEntity { entity_type: new_type, ..*old(self) }),
    {
        self.entity_type = new_type;
    }
}

/// The bounding radius that goes with a new scale.
fn radius_for(radius: i64, from: Vec2, to: Vec2) -> (r: i64)
    requires
        0 <= radius <= SCALAR_MAX,
        0 <= to.x <= SCALAR_MAX,
        0 <= to.y <= SCALAR_MAX,
    ensures
        r == rescaled_radius(radius as int, from, to),
{
    let old_size = crate::utils::max(from.x, from.y);
    if old_size > 0 {
        let new_size = crate::utils::max(to.x, to.y);
        proof {
            assert(magnitude(new_size as int) * SCALE <= i64::MAX * old_size) by (nonlinear_arith)
                requires
                    0 <= magnitude(new_size as int) <= 1_000_000_000,
                    old_size >= 1,
                    SCALE == 1000,
            ;
            lemma_trunc_div_bounds(new_size * SCALE, old_size as int);
            lemma_product_magnitude(new_size as int, SCALE as int);
        }
        let ratio = div_fixed(new_size, old_size);
        proof {
            assert(magnitude(radius as int) * magnitude(ratio as int) <= i64::MAX * SCALE)
                by (nonlinear_arith)
                requires
                    0 <= magnitude(radius as int) <= 1_000_000_000,
                    0 <= magnitude(ratio as int) <= 1_000_000_000_000,
                    SCALE == 1000,
            ;
        }
        mul_fixed(radius, ratio)
    } else {
        radius
    }
}

impl EntityBase for BaseEntity {
    open spec fn id_spec(&self) -> i32 {
        self.id
    }

    open spec fn entity_type_spec(&self) -> i32 {
        self.entity_type
    }

    open spec fn position_spec(&self) -> Vec2 {
        self.position
    }

    open spec fn bounding_radius_spec(&self) -> i64 {
        self.bounding_radius
    }

    open spec fn tagged_spec(&self) -> bool {
        self.tag
    }

    open spec fn scale_spec(&self) -> Vec2 {
        self.scale
    }

    /// The radius and the new scale are in the range for which the
    /// adjustment of the radius cannot overflow.
    open spec fn can_rescale(&self, val: Vec2) -> bool {
        &&& 0 <= self.bounding_radius <= SCALAR_MAX
        &&& 0 <= val.x <= SCALAR_MAX
        &&& 0 <= val.y <= SCALAR_MAX
    }

    fn id(&self) -> (r: i32) {
        self.id
    }

    fn entity_type(&self) -> (r: i32) {
        self.entity_type
    }

    fn position(&self) -> (r: Vec2) {
        self.position
    }

    fn bounding_radius(&self) -> (r: i64) {
        self.bounding_radius
    }

    fn tag(&mut self)
        ensures
            *final(self) == (BaseEntity { tag: true, ..*old(self) }),
    {
        self.tag = true;
    }

    fn untag(&mut self)
        ensures
            *final(self) == (BaseEntity { tag: false, ..*old(self) }),
    {
        self.tag = false;
    }

    fn is_tagged(&self) -> (r: bool) {
        self.tag
    }

    fn scale(&self) -> (r: Vec2) {
        self.scale
    }

    /// Sets the scale and lets the bounding radius follow it.
    fn set_scale_vec(&mut self, val: Vec2)
        ensures
            *final(self) == (BaseEntity {
                scale: val,
                bounding_radius: rescaled_radius(
                    old(self).bounding_radius as int,
                    old(self).scale,
                    val,
                ) as i64,
                ..*old(self)
            }),
    {
        self.bounding_radius = radius_for(self.bounding_radius, self.scale, val);
        self.scale = val;
    }

    /// Sets the scale along both axes and lets the bounding radius follow it.
    fn set_scale_float(&mut self, val: i64)
        ensures
            *final(self) == (BaseEntity {
                scale: Vec2 { x: val, y: val },
                bounding_radius: rescaled_radius(
                    old(self).bounding_radius as int,
                    old(self).scale,
                    Vec2 { x: val, y: val },
                ) as i64,
                ..*old(self)
            }),
    {
        let to = Vec2 { x: val, y: val };
        self.bounding_radius = radius_for(self.bounding_radius, self.scale, to);
        self.scale = to;
    }
}

} // verus!
