//! What the spatial partition and the steering behaviours ask of an entity.
use vstd::prelude::*;
use crate::vec2::Vec2;

verus! {

/// The kinds of entity.
#[derive(Debug, Clone, Copy, PartialEq, Eq, Structural)]
pub enum EntityType {
    default_entity_type,
}

impl EntityType {
    /// The number that stands for the kind in an entity's `entity_type`.
    pub open spec fn value_spec(self) -> int {
        match self {
            EntityType::default_entity_type => -1,
        }
    }

    /// The number that stands for the kind.
    pub fn value(self) -> (v: i32)
        ensures
            v == self.value_spec(),
    {
        match self {
            EntityType::default_entity_type => -1,
        }
    }
}

/// An entity with an identity, a kind, a place and a size.
pub trait EntityBase {
    spec fn id_spec(&self) -> i32;

    spec fn entity_type_spec(&self) -> i32;

    spec fn position_spec(&self) -> Vec2;

    spec fn bounding_radius_spec(&self) -> i64;

    spec fn tagged_spec(&self) -> bool;

    spec fn scale_spec(&self) -> Vec2;

    /// Whether the entity can be given the scale `val`.
    spec fn can_rescale(&self, val: Vec2) -> bool;

    fn id(&self) -> (r: i32)
        ensures
            r == self.id_spec(),
    ;

    fn entity_type(&self) -> (r: i32)
        ensures
            r == self.entity_type_spec(),
    ;

    fn position(&self) -> (r: Vec2)
        ensures
            r == self.position_spec(),
    ;

    fn bounding_radius(&self) -> (r: i64)
        ensures
            r == self.bounding_radius_spec(),
    ;

    /// Sets the tag; nothing else changes.
    fn tag(&mut self)
        ensures
            final(self).tagged_spec(),
            final(self).id_spec() == old(self).id_spec(),
            final(self).entity_type_spec() == old(self).entity_type_spec(),
            final(self).position_spec() == old(self).position_spec(),
            final(self).bounding_radius_spec() == old(self).bounding_radius_spec(),
            final(self).scale_spec() == old(self).scale_spec(),
    ;

    /// Clears the tag; nothing else changes.
    fn untag(&mut self)
        ensures
            !final(self).tagged_spec(),
            final(self).id_spec() == old(self).id_spec(),
            final(self).entity_type_spec() == old(self).entity_type_spec(),
            final(self).position_spec() == old(self).position_spec(),
            final(self).bounding_radius_spec() == old(self).bounding_radius_spec(),
            final(self).scale_spec() == old(self).scale_spec(),
    ;

    fn is_tagged(&self) -> (r: bool)
        ensures
            r == self.tagged_spec(),
    ;

    fn scale(&self) -> (r: Vec2)
        ensures
            r == self.scale_spec(),
    ;

    /// Gives the entity the scale `val`. Identity, kind, place and tag stay.
    fn set_scale_vec(&mut self, val: Vec2)
        requires
            old(self).can_rescale(val),
        ensures
            final(self).scale_spec() == val,
            final(self).id_spec() == old(self).id_spec(),
            final(self).entity_type_spec() == old(self).entity_type_spec(),
            final(self).position_spec() == old(self).position_spec(),
            final(self).tagged_spec() == old(self).tagged_spec(),
    ;

    /// Gives the entity the scale `val` along both axes.
    fn set_scale_float(&mut self, val: i64)
        requires
            old(self).can_rescale(Vec2 { x: val, y: val }),
        ensures
            final(self).scale_spec() == (Vec2 { x: val, y: val }),
            final(self).id_spec() == old(self).id_spec(),
            final(self).entity_type_spec() == old(self).entity_type_spec(),
            final(self).position_spec() == old(self).position_spec(),
            final(self).tagged_spec() == old(self).tagged_spec(),
    ;
}

/// An entity that moves.
pub trait EntityMovable: EntityBase {
    spec fn mass_spec(&self) -> i64;

    spec fn velocity_spec(&self) -> Vec2;

    spec fn heading_spec(&self) -> Vec2;

    spec fn side_spec(&self) -> Vec2;

    spec fn max_force_spec(&self) -> i64;

    spec fn max_speed_spec(&self) -> i64;

    /// Whether the entity's speed can be measured without overflow.
    spec fn speed_measurable(&self) -> bool;

    /// Whether the entity can be given the speed limit `speed`.
    spec fn can_limit_speed(&self, speed: i64) -> bool;

    fn mass(&self) -> (r: i64)
        ensures
            r == self.mass_spec(),
    ;

    fn velocity(&self) -> (r: Vec2)
        ensures
            r == self.velocity_spec(),
    ;

    /// The length of the velocity, rounded up.
    fn speed(&self) -> (r: i64)
        requires
            self.speed_measurable(),
        ensures
            r == self.velocity_spec().len(),
    ;

    fn heading(&self) -> (r: Vec2)
        ensures
            r == self.heading_spec(),
    ;

    fn side(&self) -> (r: Vec2)
        ensures
            r == self.side_spec(),
    ;

    fn max_force(&self) -> (r: i64)
        ensures
            r == self.max_force_spec(),
    ;

    fn max_speed(&self) -> (r: i64)
        ensures
            r == self.max_speed_spec(),
    ;

    /// Sets the speed limit; the motion itself is unchanged.
    fn set_max_speed(&mut self, speed: i64)
        requires
            old(self).can_limit_speed(speed),
        ensures
            final(self).max_speed_spec() == speed,
            final(self).mass_spec() == old(self).mass_spec(),
            final(self).velocity_spec() == old(self).velocity_spec(),
            final(self).heading_spec() == old(self).heading_spec(),
            final(self).side_spec() == old(self).side_spec(),
            final(self).max_force_spec() == old(self).max_force_spec(),
            final(self).id_spec() == old(self).id_spec(),
            final(self).position_spec() == old(self).position_spec(),
    ;
}

/// An entity that steers itself.
pub trait EntitySteerable: EntityMovable {

}

/// The positions of a population, in population order.
pub open spec fn positions_of<E: EntityBase>(entities: Seq<E>) -> Seq<Vec2> {
    Seq::new(entities.len(), |i: int| entities[i].position_spec())
}

} // verus!
