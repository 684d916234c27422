//! The motion of an entity: its velocity and its physical limits.
use vstd::prelude::*;
use crate::fixed::COMPONENT_MAX;
use crate::vec2::Vec2;

verus! {

/// The state of motion of an entity.
#[derive(Debug, Clone, Copy)]
pub struct MovingEntity {
    pub velocity: Vec2,
    pub mass: i64,
    /// The maximum speed this entity may travel at.
    pub max_speed: i64,
    /// The maximum force this entity can produce to power itself.
    pub max_force: i64,
    /// The maximum rate at which this entity can rotate.
    pub max_turn_rate: i64,
}

impl MovingEntity {
    /// A state of motion with the given velocity and limits.
    pub fn new(velocity: Vec2, max_speed: i64, mass: i64, turn_rate: i64, max_force: i64) -> (m: Self)
        ensures
            m == (MovingEntity { velocity, mass, max_speed, max_force, max_turn_rate: turn_rate }),
    {
        MovingEntity { velocity, mass, max_speed, max_force, max_turn_rate: turn_rate }
    }

    /// The maximum force the entity can produce.
    pub fn MaxForce(&self) -> (r: i64)
        ensures
            r == self.max_force,
    {
        self.max_force
    }

    /// The maximum speed the entity may travel at.
    pub fn MaxSpeed(&self) -> (r: i64)
        ensures
            r == self.max_speed,
    {
        self.max_speed
    }

    /// The velocity.
    pub fn Velocity(&self) -> (r: Vec2)
        ensures
            r == self.velocity,
    {
        self.velocity
    }

    /// The length of the velocity, rounded up.
    pub fn Speed(&self) -> (r: i64)
        requires
            self.velocity.fits(COMPONENT_MAX as int),
        ensures
            r == self.velocity.len(),
    {
        self.velocity.length()
    }
}

} // verus!
