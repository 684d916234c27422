//! Steering behaviours: each computes a force from the state of an agent and
//! its surroundings; the forces of the enabled behaviours are summed in
//! priority order until the agent's force budget is used up.
use vstd::prelude::*;
use crate::fixed::{SCALE, COORD_MAX, COMPONENT_MAX, fx_mul, fx_div, trunc_div, magnitude, mul_fixed,
    div_fixed, div_toward_zero, lemma_trunc_div_bounds, lemma_product_magnitude, lemma_ceil_sqrt_le};
use crate::configuration::{ConfigLoader, SCALAR_MAX, WEIGHT_MAX, TIME_STEP_MAX, is_between};
use crate::vec2::{Vec2, lemma_within_fits, lemma_rescale_within, lemma_triangle, lemma_fits_len,
    lemma_square_bounds};
use crate::utils::{lemma_scale_fits, random_direction};
use crate::transformations::{PointToWorldSpace, point_to_world, lemma_unit_product};
use crate::vehicle::{Vehicle, POSITION_MAX};
use crate::neighbor_sum::{sum_where, count_where, listed, lemma_sum_where_ext, lemma_sum_where_add,
    lemma_count_where_bound, lemma_sum_where_none};
use crate::cell_space_partition::{lemma_push_contains, in_range, qualifies, CellSpacePartition};
use crate::entity_traits::positions_of;
use crate::entity_functions::{TagNeighbors, tagged_population};
use crate::configuration::POPULATION_MAX;

verus! {

/// The radius of the constraining circle for the wander behaviour.
pub const WANDER_RAD: i64 = 1_200;

/// Distance the wander circle is projected in front of the agent.
pub const WANDER_DIST: i64 = 2_000;

/// The maximum amount of displacement along the circle each second.
pub const WANDER_JITTER_PER_SEC: i64 = 80_000;

/// How close an agent must come to a waypoint before it seeks the next one.
pub const WAYPOINT_SEEK_DIST: i64 = 20_000;

/// Scales the deceleration tier into the divisor of the arrival speed.
pub const DECELERATION_TWEAKER: i64 = 300;

/// How quickly an arriving agent slows down. The tier divides the distance
/// to the target: `fast` is tier one and allows the highest speed.
#[derive(Debug, Clone, Copy, PartialEq, Eq, Structural)]
pub enum Deceleration {
    slow,
    normal,
    fast,
}

impl Deceleration {
    /// The tier: three for `slow`, two for `normal`, one for `fast`.
    pub open spec fn tier_spec(self) -> int {
        match self {
            Deceleration::slow => 3,
            Deceleration::normal => 2,
            Deceleration::fast => 1,
        }
    }

    /// The tier as a number.
    pub fn tier(self) -> (t: i64)
        ensures
            t == self.tier_spec(),
    {
        match self {
            Deceleration::slow => 3,
            Deceleration::normal => 2,
            Deceleration::fast => 1,
        }
    }
}

/// How the forces of the active behaviours are combined.
#[derive(Debug, Clone, Copy, PartialEq, Eq, Structural)]
pub enum SummingMethod {
    weighted_average,
    prioritized,
    dithered,
}

/// The behaviours, each with its bit in the flags of a `SteeringBehavior`.
#[derive(Debug, Clone, Copy, PartialEq, Eq, Structural)]
pub enum BehaviorType {
    none,
    seek,
    flee,
    arrive,
    wander,
    cohesion,
    separation,
    alignment,
    obstacle_avoidance,
    wall_avoidance,
    follow_path,
    pursuit,
    evade,
    interpose,
    hide_,
    flock,
    offset_pursuit,
}

impl BehaviorType {
    /// The behaviour's bit mask.
    pub open spec fn bits_spec(self) -> u32 {
        match self {
            BehaviorType::none => 0x00000,
            BehaviorType::seek => 0x00002,
            BehaviorType::flee => 0x00004,
            BehaviorType::arrive => 0x00008,
            BehaviorType::wander => 0x00010,
            BehaviorType::cohesion => 0x00020,
            BehaviorType::separation => 0x00040,
            BehaviorType::alignment => 0x00080,
            BehaviorType::obstacle_avoidance => 0x00100,
            BehaviorType::wall_avoidance => 0x00200,
            BehaviorType::follow_path => 0x00400,
            BehaviorType::pursuit => 0x00800,
            BehaviorType::evade => 0x01000,
            BehaviorType::interpose => 0x02000,
            BehaviorType::hide_ => 0x04000,
            BehaviorType::flock => 0x08000,
            BehaviorType::offset_pursuit => 0x10000,
        }
    }

    /// The bit mask as a number.
    pub fn bits(self) -> (b: u32)
        ensures
            b == self.bits_spec(),
    {
        match self {
            BehaviorType::none => 0x00000,
            BehaviorType::seek => 0x00002,
            BehaviorType::flee => 0x00004,
            BehaviorType::arrive => 0x00008,
            BehaviorType::wander => 0x00010,
            BehaviorType::cohesion => 0x00020,
            BehaviorType::separation => 0x00040,
            BehaviorType::alignment => 0x00080,
            BehaviorType::obstacle_avoidance => 0x00100,
            BehaviorType::wall_avoidance => 0x00200,
            BehaviorType::follow_path => 0x00400,
            BehaviorType::pursuit => 0x00800,
            BehaviorType::evade => 0x01000,
            BehaviorType::interpose => 0x02000,
            BehaviorType::hide_ => 0x04000,
            BehaviorType::flock => 0x08000,
            BehaviorType::offset_pursuit => 0x10000,
        }
    }
}

/// The bits of the behaviours that the prioritized sum evaluates: evade,
/// flee, separation, alignment, cohesion and wander.
pub const SUPPORTED_FLAGS: u32 = 0x10F4;

/// Why no steering force was computed.
#[derive(Debug, Clone, Copy, PartialEq, Eq, Structural)]
pub enum SteeringError {
    /// The summing method is not the prioritized one.
    SummingMethodNotImplemented,
    /// A behaviour is switched on that the prioritized sum does not evaluate.
    BehaviorNotImplemented,
}

/// The steering state of one agent.
#[derive(Debug, Clone, Copy)]
pub struct SteeringBehavior {
    /// The steering force created by the combined effect of all the selected behaviours.
    pub m_vSteeringForce: Vec2,
    /// The agent that pursuit and evade refer to, by its index in the population.
    pub m_pTargetAgent1: Option<usize>,
    pub m_pTargetAgent2: Option<usize>,
    /// The current target.
    pub m_vTarget: Vec2,
    /// Length of the detection box used in obstacle avoidance.
    pub m_dDBoxLength: i64,
    /// The length of the feelers used in wall detection.
    pub m_dWallDetectionFeelerLength: i64,
    /// The point on the wander circle that the agent steers towards.
    pub m_vWanderTarget: Vec2,
    pub m_dWanderJitter: i64,
    pub m_dWanderRadius: i64,
    pub m_dWanderDistance: i64,
    pub m_dWeightSeparation: i64,
    pub m_dWeightCohesion: i64,
    pub m_dWeightAlignment: i64,
    pub m_dWeightWander: i64,
    pub m_dWeightObstacleAvoidance: i64,
    pub m_dWeightWallAvoidance: i64,
    pub m_dWeightSeek: i64,
    pub m_dWeightFlee: i64,
    pub m_dWeightArrive: i64,
    pub m_dWeightPursuit: i64,
    pub m_dWeightOffsetPursuit: i64,
    pub m_dWeightInterpose: i64,
    pub m_dWeightHide: i64,
    pub m_dWeightEvade: i64,
    pub m_dWeightFollowPath: i64,
    /// How far the agent can see.
    pub m_dViewDistance: i64,
    /// Beyond this distance a pursuer is ignored.
    pub m_dThreatRange: i64,
    /// The squared distance from a waypoint at which the next one is sought.
    pub m_dWaypointSeekDistSq: i64,
    /// Any offset used for formations or offset pursuit.
    pub m_vOffset: Vec2,
    /// Binary flags that say which behaviours are active.
    pub m_iFlags: u32,
    pub m_Deceleration: Deceleration,
    /// Whether neighbours come from the spatial partition.
    pub m_bCellSpaceOn: bool,
    pub m_SummingMethod: SummingMethod,
}

impl SteeringBehavior {
    /// Whether the bit of `bt` is set.
    pub open spec fn enabled(&self, bt: BehaviorType) -> bool {
        (self.m_iFlags & bt.bits_spec()) == bt.bits_spec()
    }

    /// The parameters are in range, the wander target lies within the wander
    /// circle, and pursuit and evade have their target.
    pub open spec fn wf(&self) -> bool {
        &&& 0 <= self.m_dWeightSeparation <= WEIGHT_MAX
        &&& 0 <= self.m_dWeightAlignment <= WEIGHT_MAX
        &&& 0 <= self.m_dWeightCohesion <= WEIGHT_MAX
        &&& 0 <= self.m_dWeightWander <= WEIGHT_MAX
        &&& 0 <= self.m_dWeightFlee <= WEIGHT_MAX
        &&& 0 <= self.m_dWeightEvade <= WEIGHT_MAX
        &&& 0 <= self.m_dViewDistance <= SCALAR_MAX
        &&& 0 <= self.m_dThreatRange <= SCALAR_MAX
        &&& 0 <= self.m_dWanderJitter <= SCALAR_MAX
        &&& 0 <= self.m_dWanderRadius <= SCALAR_MAX
        &&& 0 <= self.m_dWanderDistance <= SCALAR_MAX
        &&& self.m_vWanderTarget.within(self.m_dWanderRadius as int)
        &&& self.enabled(BehaviorType::evade) ==> self.m_pTargetAgent1.is_some()
        &&& self.enabled(BehaviorType::pursuit) ==> self.m_pTargetAgent1.is_some()
    }

    /// This state is `before` with the flags replaced.
    pub open spec fn with_flags(&self, before: &SteeringBehavior, flags: u32) -> bool {
        *self == (SteeringBehavior { m_iFlags: flags, ..*before })
    }

    /// A steering state with the given configuration and wander target, no
    /// behaviour switched on, and the prioritized summing method.
    pub open spec fn initial(config: ConfigLoader, wander_target: Vec2) -> SteeringBehavior {
        SteeringBehavior {
            m_vSteeringForce: Vec2 { x: 0, y: 0 },
            m_pTargetAgent1: None,
            m_pTargetAgent2: None,
            m_vTarget: Vec2 { x: 0, y: 0 },
            m_dDBoxLength: config.MinDetectionBoxLength,
            m_dWallDetectionFeelerLength: config.WallDetectionFeelerLength,
            m_vWanderTarget: wander_target,
            m_dWanderJitter: WANDER_JITTER_PER_SEC,
            m_dWanderRadius: WANDER_RAD,
            m_dWanderDistance: WANDER_DIST,
            m_dWeightSeparation: config.SeparationWeight,
            m_dWeightCohesion: config.CohesionWeight,
            m_dWeightAlignment: config.AlignmentWeight,
            m_dWeightWander: config.WanderWeight,
            m_dWeightObstacleAvoidance: config.ObstacleAvoidanceWeight,
            m_dWeightWallAvoidance: config.WallAvoidanceWeight,
            m_dWeightSeek: config.SeekWeight,
            m_dWeightFlee: config.FleeWeight,
            m_dWeightArrive: config.ArriveWeight,
            m_dWeightPursuit: config.PursuitWeight,
            m_dWeightOffsetPursuit: config.OffsetPursuitWeight,
            m_dWeightInterpose: config.InterposeWeight,
            m_dWeightHide: config.HideWeight,
            m_dWeightEvade: config.EvadeWeight,
            m_dWeightFollowPath: config.FollowPathWeight,
            m_dViewDistance: config.ViewDistance,
            m_dThreatRange: config.ThreatRange,
            m_dWaypointSeekDistSq: 400_000,
            m_vOffset: Vec2 { x: 0, y: 0 },
            m_iFlags: 0,
            m_Deceleration: Deceleration::normal,
            m_bCellSpaceOn: false,
            m_SummingMethod: SummingMethod::prioritized,
        }
    }

    /// The steering state that `initial` describes.
    pub fn from_config(config: &ConfigLoader, wander_target: Vec2) -> (s: Self)
        requires
            config.valid(),
            wander_target.within(WANDER_RAD as int),
        ensures
            s == Self::initial(*config, wander_target),
            s.wf(),
    {
        let s = SteeringBehavior {
            m_vSteeringForce: Vec2 { x: 0, y: 0 },
            m_pTargetAgent1: None,
            m_pTargetAgent2: None,
            m_vTarget: Vec2 { x: 0, y: 0 },
            m_dDBoxLength: config.MinDetectionBoxLength,
            m_dWallDetectionFeelerLength: config.WallDetectionFeelerLength,
            m_vWanderTarget: wander_target,
            m_dWanderJitter: WANDER_JITTER_PER_SEC,
            m_dWanderRadius: WANDER_RAD,
            m_dWanderDistance: WANDER_DIST,
            m_dWeightSeparation: config.SeparationWeight,
            m_dWeightCohesion: config.CohesionWeight,
            m_dWeightAlignment: config.AlignmentWeight,
            m_dWeightWander: config.WanderWeight,
            m_dWeightObstacleAvoidance: config.ObstacleAvoidanceWeight,
            m_dWeightWallAvoidance: config.WallAvoidanceWeight,
            m_dWeightSeek: config.SeekWeight,
            m_dWeightFlee: config.FleeWeight,
            m_dWeightArrive: config.ArriveWeight,
            m_dWeightPursuit: config.PursuitWeight,
            m_dWeightOffsetPursuit: config.OffsetPursuitWeight,
            m_dWeightInterpose: config.InterposeWeight,
            m_dWeightHide: config.HideWeight,
            m_dWeightEvade: config.EvadeWeight,
            m_dWeightFollowPath: config.FollowPathWeight,
            m_dViewDistance: config.ViewDistance,
            m_dThreatRange: config.ThreatRange,
            m_dWaypointSeekDistSq: 400_000,
            m_vOffset: Vec2 { x: 0, y: 0 },
            m_iFlags: 0,
            m_Deceleration: Deceleration::normal,
            m_bCellSpaceOn: false,
            m_SummingMethod: SummingMethod::prioritized,
        };
        proof {
            let f = s.m_iFlags;
            assert(f & 0x1000 != 0x1000 && f & 0x800 != 0x800) by (bit_vector)
                requires
                    f == 0,
            ;
        }
        s
    }

    /// A steering state with the standard configuration and a random point
    /// of the wander circle as its wander target.
    pub fn new() -> (s: Self)
        ensures
            s.wf(),
            s.with_flags(&Self::initial(crate::configuration::standard_config(), s.m_vWanderTarget), 0),
    {
        let direction = random_direction();
        proof {
            lemma_within_fits(direction, SCALE as int);
            lemma_scale_fits(direction, WANDER_RAD as int);
            lemma_rescale_within(
                direction.x as int,
                direction.y as int,
                SCALE as int,
                WANDER_RAD as int,
            );
        }
        let wander_target = direction.scale(WANDER_RAD);
        let config = ConfigLoader::new();
        Self::from_config(&config, wander_target)
    }

    /// Switches cohesion, alignment, separation and wander on.
    pub fn FlockingOn(&mut self)
        requires
            old(self).wf(),
        ensures
            final(self).wf(),
            final(self).with_flags(old(self), old(self).m_iFlags | 0xF0),
    {
        self.CohesionOn();
        self.AlignmentOn();
        self.SeparationOn();
        self.WanderOn();
        proof {
            let f = old(self).m_iFlags;
            assert((((f | 0x20) | 0x80) | 0x40) | 0x10 == f | 0xF0) by (bit_vector);
        }
    }

    /// Switches cohesion, alignment, separation and wander off.
    pub fn FlockingOff(&mut self)
        requires
            old(self).wf(),
        ensures
            final(self).wf(),
            final(self).with_flags(old(self), old(self).m_iFlags & !0xF0u32),
    {
        self.CohesionOff();
        self.AlignmentOff();
        self.SeparationOff();
        self.WanderOff();
        proof {
            let f = old(self).m_iFlags;
            assert((((f & !0x20u32) & !0x80u32) & !0x40u32) & !0x10u32 == f & !0xF0u32)
                by (bit_vector);
        }
    }

    /// Sets the bits of `mask`, which holds neither the pursuit nor the evade bit.
    fn switch_on(&mut self, mask: u32)
        requires
            old(self).wf(),
            mask & 0x1800 == 0,
        ensures
            final(self).wf(),
            final(self).with_flags(old(self), old(self).m_iFlags | mask),
    {
        proof {
            let f = self.m_iFlags;
            assert(((f | mask) & 0x1000 == 0x1000) == (f & 0x1000 == 0x1000) && ((f | mask) & 0x800
                == 0x800) == (f & 0x800 == 0x800)) by (bit_vector)
                requires
                    mask & 0x1800 == 0,
            ;
        }
        self.m_iFlags = self.m_iFlags | mask;
    }

    /// Clears the bits of `mask`.
    fn switch_off(&mut self, mask: u32)
        requires
            old(self).wf(),
        ensures
            final(self).wf(),
            final(self).with_flags(old(self), old(self).m_iFlags & !mask),
    {
        proof {
            let f = self.m_iFlags;
            assert(((f & !mask) & 0x1000 == 0x1000 ==> f & 0x1000 == 0x1000) && ((f & !mask) & 0x800
                == 0x800 ==> f & 0x800 == 0x800)) by (bit_vector);
        }
        self.m_iFlags = self.m_iFlags & !mask;
    }

    /// Switches wander on.
    pub fn WanderOn(&mut self)
        requires
            old(self).wf(),
        ensures
            final(self).wf(),
            final(self).with_flags(old(self), old(self).m_iFlags | 0x10),
    {
        assert(0x10u32 & 0x1800 == 0) by (bit_vector);
        self.switch_on(0x10);
    }

    /// Switches pursuit of the agent `target` on.
    pub fn PursuitOn(&mut self, target: usize)
        requires
            old(self).wf(),
        ensures
            final(self).wf(),
            *final(self) == (SteeringBehavior {
                m_iFlags: old(self).m_iFlags | 0x800,
                m_pTargetAgent1: Some(target),
                ..*old(self)
            }),
    {
        self.m_iFlags = self.m_iFlags | 0x800;
        self.m_pTargetAgent1 = Some(target);
    }

    /// Switches evasion of the agent `target` on.
    pub fn EvadeOn(&mut self, target: usize)
        requires
            old(self).wf(),
        ensures
            final(self).wf(),
            *final(self) == (SteeringBehavior {
                m_iFlags: old(self).m_iFlags | 0x1000,
                m_pTargetAgent1: Some(target),
                ..*old(self)
            }),
    {
        self.m_iFlags = self.m_iFlags | 0x1000;
        self.m_pTargetAgent1 = Some(target);
    }

    /// Switches cohesion on.
    pub fn CohesionOn(&mut self)
        requires
            old(self).wf(),
        ensures
            final(self).wf(),
            final(self).with_flags(old(self), old(self).m_iFlags | 0x20),
    {
        assert(0x20u32 & 0x1800 == 0) by (bit_vector);
        self.switch_on(0x20);
    }

    /// Switches separation on.
    pub fn SeparationOn(&mut self)
        requires
            old(self).wf(),
        ensures
            final(self).wf(),
            final(self).with_flags(old(self), old(self).m_iFlags | 0x40),
    {
        assert(0x40u32 & 0x1800 == 0) by (bit_vector);
        self.switch_on(0x40);
    }

    /// Switches alignment on.
    pub fn AlignmentOn(&mut self)
        requires
            old(self).wf(),
        ensures
            final(self).wf(),
            final(self).with_flags(old(self), old(self).m_iFlags | 0x80),
    {
        assert(0x80u32 & 0x1800 == 0) by (bit_vector);
        self.switch_on(0x80);
    }

    /// Switches cohesion off.
    pub fn CohesionOff(&mut self)
        requires
            old(self).wf(),
        ensures
            final(self).wf(),
            final(self).with_flags(old(self), old(self).m_iFlags & !0x20u32),
    {
        self.switch_off(0x20);
    }

    /// Switches separation off.
    pub fn SeparationOff(&mut self)
        requires
            old(self).wf(),
        ensures
            final(self).wf(),
            final(self).with_flags(old(self), old(self).m_iFlags & !0x40u32),
    {
        self.switch_off(0x40);
    }

    /// Switches alignment off.
    pub fn AlignmentOff(&mut self)
        requires
            old(self).wf(),
        ensures
            final(self).wf(),
            final(self).with_flags(old(self), old(self).m_iFlags & !0x80u32),
    {
        self.switch_off(0x80);
    }

    /// Switches wander off.
    pub fn WanderOff(&mut self)
        requires
            old(self).wf(),
        ensures
            final(self).wf(),
            final(self).with_flags(old(self), old(self).m_iFlags & !0x10u32),
    {
        self.switch_off(0x10);
    }

    /// Whether neighbours come from the spatial partition.
    pub fn isSpacePartitioningOn(&self) -> (r: bool)
        ensures
            r == self.m_bCellSpaceOn,
    {
        self.m_bCellSpaceOn
    }

    /// Tests whether the bit of `bt` is set.
    pub fn On(&self, bt: BehaviorType) -> (r: bool)
        ensures
            r == self.enabled(bt),
    {
        (self.m_iFlags & bt.bits()) == bt.bits()
    }
}

/// The force that drives an agent towards `target` at full speed.
pub open spec fn seek_spec(position: Vec2, velocity: Vec2, max_speed: int, target: Vec2) -> Vec2 {
    target.minus_spec(position).normalized().scale_spec(max_speed).minus_spec(velocity)
}

/// The force that drives an agent away from `target` at full speed.
pub open spec fn flee_spec(position: Vec2, velocity: Vec2, max_speed: int, target: Vec2) -> Vec2 {
    position.minus_spec(target).normalized().scale_spec(max_speed).minus_spec(velocity)
}

/// Flee mirrors seek: apart from the braking of the agent's own velocity,
/// the force away from a target is the reverse of the force towards it.
pub proof fn lemma_flee_mirrors_seek(position: Vec2, velocity: Vec2, max_speed: int, target: Vec2)
    requires
        position.fits(COORD_MAX as int),
        target.fits(COORD_MAX as int),
        velocity.fits(COORD_MAX as int),
        0 <= max_speed <= COORD_MAX,
    ensures
        flee_spec(position, velocity, max_speed, target).x + velocity.x == -(seek_spec(
            position,
            velocity,
            max_speed,
            target,
        ).x + velocity.x),
        flee_spec(position, velocity, max_speed, target).y + velocity.y == -(seek_spec(
            position,
            velocity,
            max_speed,
            target,
        ).y + velocity.y),
{
    let to = target.minus_spec(position);
    let from = position.minus_spec(target);
    crate::vec2::lemma_fits_norm_sq(to, 2 * COORD_MAX);
    assert(to.norm_sq() * (SCALE * SCALE) >= 0) by (nonlinear_arith)
        requires
            to.norm_sq() >= 0,
            SCALE == 1000,
    ;
    assert(from.norm_sq() == to.norm_sq()) by (nonlinear_arith)
        requires
            from.x == -to.x,
            from.y == -to.y,
            from.norm_sq() == from.x * from.x + from.y * from.y,
            to.norm_sq() == to.x * to.x + to.y * to.y,
    ;
    crate::vec2::lemma_normalized_nearly_unit(to);
    crate::vec2::lemma_normalized_nearly_unit(from);
    let n = to.normalized();
    let m = from.normalized();
    lemma_within_fits(n, SCALE as int);
    lemma_within_fits(m, SCALE as int);
    assert(m.x == -n.x && m.y == -n.y) by {
        if to.norm_sq() != 0 {
            if to.fits(crate::vec2::PRECISE_MAX as int) {
                let d = crate::fixed::ceil_sqrt(to.norm_sq() * (SCALE * SCALE));
                lemma_trunc_div_bounds(to.x * (SCALE * SCALE), d);
                lemma_trunc_div_bounds(to.y * (SCALE * SCALE), d);
                assert(from.x * (SCALE * SCALE) == -(to.x * (SCALE * SCALE)) && from.y * (SCALE
                    * SCALE) == -(to.y * (SCALE * SCALE))) by (nonlinear_arith)
                    requires
                        from.x == -to.x,
                        from.y == -to.y,
                ;
            } else {
                let d = to.len();
                lemma_trunc_div_bounds(to.x * SCALE, d);
                lemma_trunc_div_bounds(to.y * SCALE, d);
                assert(from.x * SCALE == -(to.x * SCALE) && from.y * SCALE == -(to.y * SCALE))
                    by (nonlinear_arith)
                    requires
                        from.x == -to.x,
                        from.y == -to.y,
                ;
            }
        }
    }
    lemma_trunc_div_bounds(n.x * max_speed, SCALE as int);
    lemma_trunc_div_bounds(n.y * max_speed, SCALE as int);
    assert(m.x * max_speed == -(n.x * max_speed) && m.y * max_speed == -(n.y * max_speed))
        by (nonlinear_arith)
        requires
            m.x == -n.x,
            m.y == -n.y,
    ;
    lemma_unit_product(n.x as int, max_speed, COORD_MAX as int);
    lemma_unit_product(n.y as int, max_speed, COORD_MAX as int);
    lemma_unit_product(m.x as int, max_speed, COORD_MAX as int);
    lemma_unit_product(m.y as int, max_speed, COORD_MAX as int);
}

/// The force that brings an agent to rest at `target`: the speed wanted is
/// the distance divided by the deceleration tier times the tweaker, capped at
/// the speed limit; at the target itself the force is zero.
pub open spec fn arrive_spec(
    position: Vec2,
    velocity: Vec2,
    max_speed: int,
    target: Vec2,
    tier: int,
) -> Vec2 {
    let to_target = target.minus_spec(position);
    let dist = to_target.len();
    if dist > 0 {
        let wanted = fx_div(dist, tier * DECELERATION_TWEAKER);
        let speed = if wanted < max_speed {
            wanted
        } else {
            max_speed
        };
        to_target.rescale_spec(speed, dist).minus_spec(velocity)
    } else {
        Vec2 { x: 0, y: 0 }
    }
}

/// The time that closing `distance` takes at the speed `speed_sum`; zero if
/// that speed is zero.
pub open spec fn look_ahead_time(distance: int, speed_sum: int) -> int {
    if speed_sum > 0 {
        fx_div(distance, speed_sum)
    } else {
        0
    }
}

/// Where `target` will be after `look_ahead` if it keeps its velocity.
pub open spec fn predicted_position(target: &Vehicle, look_ahead: int) -> Vec2 {
    target.position.plus_spec(target.velocity.scale_spec(look_ahead))
}

/// Where an agent with speed limit `max_speed` that is `distance` away
/// expects `target` to be when it gets there.
pub open spec fn interception_point(target: &Vehicle, distance: int, max_speed: int) -> Vec2 {
    predicted_position(target, look_ahead_time(distance, max_speed + target.velocity.len()))
}

/// The evader is ahead of the pursuer and the two are nearly face to face:
/// the cosine of the angle between their headings is below -0.95.
pub open spec fn ahead_and_facing(pursuer: &Vehicle, evader: &Vehicle) -> bool {
    let to_evader = evader.position.minus_spec(pursuer.position);
    to_evader.x * pursuer.heading.x + to_evader.y * pursuer.heading.y > 0 && pursuer.heading.x
        * evader.heading.x + pursuer.heading.y * evader.heading.y < -950 * SCALE
}

/// The force that steers `vehicle` towards `evader`: a seek to the evader
/// itself when it is ahead and facing, else a seek to where it will be.
pub open spec fn pursuit_spec(vehicle: &Vehicle, evader: &Vehicle) -> Vec2 {
    if ahead_and_facing(vehicle, evader) {
        seek_spec(vehicle.position, vehicle.velocity, vehicle.max_speed as int, evader.position)
    } else {
        seek_spec(
            vehicle.position,
            vehicle.velocity,
            vehicle.max_speed as int,
            interception_point(
                evader,
                evader.position.minus_spec(vehicle.position).len(),
                vehicle.max_speed as int,
            ),
        )
    }
}

/// The force that steers `vehicle` away from where `pursuer` will be; zero
/// if the pursuer is beyond the threat range.
pub open spec fn evade_spec(vehicle: &Vehicle, pursuer: &Vehicle) -> Vec2 {
    let to_pursuer = pursuer.position.minus_spec(vehicle.position);
    if to_pursuer.norm_sq() > vehicle.m_pSteering.m_dThreatRange
        * vehicle.m_pSteering.m_dThreatRange {
        Vec2 { x: 0, y: 0 }
    } else {
        flee_spec(
            vehicle.position,
            vehicle.velocity,
            vehicle.max_speed as int,
            interception_point(pursuer, to_pursuer.len(), vehicle.max_speed as int),
        )
    }
}

/// The wander target after one step: the old target displaced by the jitter
/// of this time slice and projected back onto the wander circle.
pub open spec fn wander_target_spec(steering: &SteeringBehavior, dt: int, jitter: Vec2) -> Vec2 {
    let slice = fx_mul(steering.m_dWanderJitter as int, dt);
    let moved = Vec2 {
        x: (steering.m_vWanderTarget.x + fx_mul(jitter.x as int, slice)) as i64,
        y: (steering.m_vWanderTarget.y + fx_mul(jitter.y as int, slice)) as i64,
    };
    moved.normalized().scale_spec(steering.m_dWanderRadius as int)
}

/// The force towards the wander target: the target, moved the wander
/// distance ahead of the agent, in world space, minus the agent's position.
pub open spec fn wander_force_spec(vehicle: &Vehicle, wander_target: Vec2) -> Vec2 {
    let local = Vec2 {
        x: (wander_target.x + vehicle.m_pSteering.m_dWanderDistance) as i64,
        y: wander_target.y,
    };
    point_to_world(local, vehicle.heading, vehicle.side_vec, vehicle.position).minus_spec(
        vehicle.position,
    )
}

/// One step of the force budget: the new running total and whether budget
/// was left. With no budget left the total stays; a force shorter than the
/// rest of the budget is added whole; any other is cut to the rest.
pub open spec fn accumulate_spec(max_force: int, total: Vec2, force: Vec2) -> (Vec2, bool) {
    let remaining = max_force - total.len();
    if remaining <= 0 {
        (total, false)
    } else if force.len() < remaining {
        (total.plus_spec(force), true)
    } else {
        (total.plus_spec(force.normalized().scale_spec(remaining)), true)
    }
}

/// Where `target` is expected to be when an agent `distance` away reaches it.
fn predict(target: &Vehicle, distance: i64, max_speed: i64) -> (p: Vec2)
    requires
        target.wf(),
        0 <= distance <= 4 * POSITION_MAX,
        0 <= max_speed <= SCALAR_MAX,
    ensures
        p == interception_point(target, distance as int, max_speed as int),
        p.fits(POSITION_MAX + distance),
{
    proof {
        lemma_within_fits(target.velocity, target.max_speed as int);
    }
    let speed = target.velocity.length();
    proof {
        lemma_ceil_sqrt_le(target.velocity.norm_sq(), speed as int, target.max_speed as int);
        lemma_within_fits(target.velocity, speed as int);
    }
    let speed_sum = max_speed + speed;
    let look_ahead: i64 = if speed_sum > 0 {
        div_fixed(distance, speed_sum)
    } else {
        0
    };
    proof {
        let vx = magnitude(target.velocity.x as int);
        let vy = magnitude(target.velocity.y as int);
        let t = look_ahead as int;
        if speed_sum > 0 {
            lemma_trunc_div_bounds(distance * SCALE, speed_sum as int);
            assert(distance * SCALE >= 0) by (nonlinear_arith)
                requires
                    distance >= 0,
            ;
            assert(vx * t <= distance * SCALE && vy * t <= distance * SCALE) by (nonlinear_arith)
                requires
                    t * speed_sum <= distance * SCALE,
                    0 <= vx <= speed_sum,
                    0 <= vy <= speed_sum,
                    t >= 0,
            ;
        } else {
            assert(vx * t == 0 && vy * t == 0) by (nonlinear_arith)
                requires
                    t == 0,
            ;
        }
        lemma_product_magnitude(target.velocity.x as int, t);
        lemma_product_magnitude(target.velocity.y as int, t);
        lemma_trunc_div_bounds(target.velocity.x * t, SCALE as int);
        lemma_trunc_div_bounds(target.velocity.y * t, SCALE as int);
        let ox = magnitude(fx_mul(target.velocity.x as int, t));
        let oy = magnitude(fx_mul(target.velocity.y as int, t));
        assert(ox <= distance && oy <= distance) by (nonlinear_arith)
            requires
                ox * SCALE <= distance * SCALE,
                oy * SCALE <= distance * SCALE,
        ;
    }
    target.position.plus(target.velocity.scale(look_ahead))
}

impl SteeringBehavior {
    /// Given a target, returns the steering force that directs the agent
    /// towards it.
    pub fn Seek(vehicle: &Vehicle, TargetPos: Vec2) -> (force: Vec2)
        requires
            vehicle.wf(),
            TargetPos.fits(COORD_MAX as int),
        ensures
            force == seek_spec(
                vehicle.position,
                vehicle.velocity,
                vehicle.max_speed as int,
                TargetPos,
            ),
            force.fits(2 * vehicle.max_speed),
    {
        let desired = TargetPos.minus(vehicle.position).normalize_or_zero();
        proof {
            lemma_within_fits(desired, SCALE as int);
            lemma_scale_fits(desired, vehicle.max_speed as int);
            lemma_within_fits(vehicle.velocity, vehicle.max_speed as int);
        }
        desired.scale(vehicle.max_speed).minus(vehicle.velocity)
    }

    /// Does the opposite of `Seek`.
    pub fn Flee(vehicle: &Vehicle, TargetPos: Vec2) -> (force: Vec2)
        requires
            vehicle.wf(),
            TargetPos.fits(COORD_MAX as int),
        ensures
            force == flee_spec(
                vehicle.position,
                vehicle.velocity,
                vehicle.max_speed as int,
                TargetPos,
            ),
            force.fits(2 * vehicle.max_speed),
    {
        let desired = vehicle.position.minus(TargetPos).normalize_or_zero();
        proof {
            lemma_within_fits(desired, SCALE as int);
            lemma_scale_fits(desired, vehicle.max_speed as int);
            lemma_within_fits(vehicle.velocity, vehicle.max_speed as int);
        }
        desired.scale(vehicle.max_speed).minus(vehicle.velocity)
    }

    /// Like `Seek`, but arrives at the target with zero velocity.
    pub fn Arrive(vehicle: &Vehicle, TargetPos: Vec2, deceleration: Deceleration) -> (force: Vec2)
        requires
            vehicle.wf(),
            TargetPos.fits(COORD_MAX as int),
        ensures
            force == arrive_spec(
                vehicle.position,
                vehicle.velocity,
                vehicle.max_speed as int,
                TargetPos,
                deceleration.tier_spec(),
            ),
            force.fits(2 * vehicle.max_speed),
    {
        let to_target = TargetPos.minus(vehicle.position);
        proof {
            lemma_fits_len(to_target, COORD_MAX + POSITION_MAX);
        }
        let dist = to_target.length();
        if dist > 0 {
            let divisor = deceleration.tier() * DECELERATION_TWEAKER;
            let wanted = div_fixed(dist, divisor);
            let speed = crate::utils::min(wanted, vehicle.max_speed);
            proof {
                lemma_trunc_div_bounds(dist * SCALE, divisor as int);
                assert(dist * SCALE >= 0) by (nonlinear_arith)
                    requires
                        dist >= 0,
                ;
                lemma_within_fits(vehicle.velocity, vehicle.max_speed as int);
            }
            to_target.rescale(speed, dist).minus(vehicle.velocity)
        } else {
            Vec2 { x: 0, y: 0 }
        }
    }

    /// The force that steers the agent towards the evader.
    pub fn Pursuit(vehicle: &Vehicle, evader: &Vehicle) -> (force: Vec2)
        requires
            vehicle.wf(),
            evader.wf(),
        ensures
            force == pursuit_spec(vehicle, evader),
            force.fits(2 * vehicle.max_speed),
    {
        let to_evader = evader.position.minus(vehicle.position);
        proof {
            lemma_within_fits(vehicle.heading, SCALE as int);
            lemma_within_fits(evader.heading, SCALE as int);
            lemma_unit_product(vehicle.heading.x as int, to_evader.x as int, 2 * POSITION_MAX);
            lemma_unit_product(vehicle.heading.y as int, to_evader.y as int, 2 * POSITION_MAX);
            lemma_unit_product(vehicle.heading.x as int, evader.heading.x as int, SCALE as int);
            lemma_unit_product(vehicle.heading.y as int, evader.heading.y as int, SCALE as int);
            lemma_product_magnitude(vehicle.heading.x as int, to_evader.x as int);
            lemma_product_magnitude(vehicle.heading.y as int, to_evader.y as int);
            lemma_product_magnitude(vehicle.heading.x as int, evader.heading.x as int);
            lemma_product_magnitude(vehicle.heading.y as int, evader.heading.y as int);
            assert(to_evader.x * vehicle.heading.x == vehicle.heading.x * to_evader.x
                && to_evader.y * vehicle.heading.y == vehicle.heading.y * to_evader.y)
                by (nonlinear_arith);
        }
        let ahead: i128 = (to_evader.x as i128) * (vehicle.heading.x as i128) + (to_evader.y as i128)
            * (vehicle.heading.y as i128);
        let relative_heading: i128 = (vehicle.heading.x as i128) * (evader.heading.x as i128) + (
        vehicle.heading.y as i128) * (evader.heading.y as i128);
        if ahead > 0 && relative_heading < -950_000 {
            return Self::Seek(vehicle, evader.position);
        }
        proof {
            lemma_fits_len(to_evader, 2 * POSITION_MAX);
        }
        let target = predict(evader, to_evader.length(), vehicle.max_speed);
        Self::Seek(vehicle, target)
    }

    /// Like pursuit, except that the agent flees from the estimated future
    /// position of the pursuer.
    pub fn Evade(vehicle: &Vehicle, pursuer: &Vehicle) -> (force: Vec2)
        requires
            vehicle.wf(),
            pursuer.wf(),
        ensures
            force == evade_spec(vehicle, pursuer),
            force.fits(2 * vehicle.max_speed),
    {
        let to_pursuer = pursuer.position.minus(vehicle.position);
        let threat_range = vehicle.m_pSteering.m_dThreatRange;
        proof {
            lemma_square_bounds(threat_range as int);
        }
        let threat_squared: u128 = ((threat_range as i128) * (threat_range as i128)) as u128;
        if to_pursuer.length_squared() > threat_squared {
            return Vec2 { x: 0, y: 0 };
        }
        proof {
            lemma_fits_len(to_pursuer, 2 * POSITION_MAX);
        }
        let target = predict(pursuer, to_pursuer.length(), vehicle.max_speed);
        Self::Flee(vehicle, target)
    }

    /// Makes the agent wander: moves the wander target by the jitter of this
    /// time step, and returns the force towards the new target together with
    /// that target. `jitter` holds two draws from minus one to one.
    pub fn Wander(vehicle: &Vehicle, jitter: Vec2) -> (r: (Vec2, Vec2))
        requires
            vehicle.wf(),
            jitter.fits(SCALE as int),
        ensures
            r.1 == wander_target_spec(
                &vehicle.m_pSteering,
                vehicle.m_dTimeElapsed as int,
                jitter,
            ),
            r.0 == wander_force_spec(vehicle, r.1),
            r.1.within(vehicle.m_pSteering.m_dWanderRadius as int),
            r.0.fits(4 * SCALAR_MAX),
    {
        let steering = &vehicle.m_pSteering;
        proof {
            assert(magnitude(steering.m_dWanderJitter as int) * magnitude(
                vehicle.m_dTimeElapsed as int,
            ) <= SCALAR_MAX * TIME_STEP_MAX) by (nonlinear_arith)
                requires
                    0 <= magnitude(steering.m_dWanderJitter as int) <= SCALAR_MAX,
                    0 <= magnitude(vehicle.m_dTimeElapsed as int) <= TIME_STEP_MAX,
            ;
            lemma_product_magnitude(steering.m_dWanderJitter as int, vehicle.m_dTimeElapsed as int);
            lemma_trunc_div_bounds(
                steering.m_dWanderJitter * vehicle.m_dTimeElapsed,
                SCALE as int,
            );
        }
        // this behaviour depends on the update rate, so the jitter is
        // scaled by the time step
        let jitter_this_time_slice = mul_fixed(steering.m_dWanderJitter, vehicle.m_dTimeElapsed);
        proof {
            lemma_unit_product(
                jitter.x as int,
                jitter_this_time_slice as int,
                SCALAR_MAX * TIME_STEP_MAX,
            );
            lemma_unit_product(
                jitter.y as int,
                jitter_this_time_slice as int,
                SCALAR_MAX * TIME_STEP_MAX,
            );
            lemma_within_fits(steering.m_vWanderTarget, steering.m_dWanderRadius as int);
        }
        // first, add a small random vector to the target's position
        let moved = Vec2 {
            x: steering.m_vWanderTarget.x + mul_fixed(jitter.x, jitter_this_time_slice),
            y: steering.m_vWanderTarget.y + mul_fixed(jitter.y, jitter_this_time_slice),
        };
        // reproject this new vector back onto a unit circle
        let unit = moved.normalize_or_zero();
        proof {
            lemma_within_fits(unit, SCALE as int);
            lemma_scale_fits(unit, steering.m_dWanderRadius as int);
            lemma_rescale_within(
                unit.x as int,
                unit.y as int,
                SCALE as int,
                steering.m_dWanderRadius as int,
            );
        }
        // increase the length of the vector to the radius of the wander circle
        let wander_target = unit.scale(steering.m_dWanderRadius);
        proof {
            lemma_within_fits(wander_target, steering.m_dWanderRadius as int);
            lemma_within_fits(vehicle.heading, SCALE as int);
            lemma_within_fits(vehicle.side_vec, SCALE as int);
        }
        // move the target into a position in front of the agent
        let local = Vec2 { x: wander_target.x + steering.m_dWanderDistance, y: wander_target.y };
        proof {
            lemma_unit_product(vehicle.heading.x as int, local.x as int, 2 * SCALAR_MAX);
            lemma_unit_product(vehicle.side_vec.x as int, local.y as int, 2 * SCALAR_MAX);
            lemma_unit_product(vehicle.heading.y as int, local.x as int, 2 * SCALAR_MAX);
            lemma_unit_product(vehicle.side_vec.y as int, local.y as int, 2 * SCALAR_MAX);
        }
        // project the target into world space and steer towards it
        let world_target = PointToWorldSpace(
            local,
            vehicle.heading,
            vehicle.side_vec,
            vehicle.position,
        );
        (world_target.minus(vehicle.position), wander_target)
    }

    /// Adds as much of `force_to_add` to `running_total` as the vehicle's
    /// force budget allows. Returns false, with the total unchanged, if the
    /// budget was used up already.
    pub fn AccumulateForce(vehicle: &Vehicle, running_total: &mut Vec2, force_to_add: Vec2) -> (more:
        bool)
        requires
            vehicle.wf(),
            old(running_total).within(vehicle.max_force as int),
            force_to_add.fits(COMPONENT_MAX as int),
        ensures
            (*final(running_total), more) == accumulate_spec(
                vehicle.max_force as int,
                *old(running_total),
                force_to_add,
            ),
            final(running_total).within(vehicle.max_force as int),
    {
        let ghost total = *running_total;
        let ghost budget = vehicle.max_force as int;
        proof {
            lemma_within_fits(total, budget);
        }
        // how much steering force the vehicle has used so far
        let magnitude_so_far = running_total.length();
        proof {
            lemma_ceil_sqrt_le(total.norm_sq(), magnitude_so_far as int, budget);
        }
        // how much steering force remains to be used by this vehicle
        let magnitude_remaining = vehicle.max_force - magnitude_so_far;
        if magnitude_remaining <= 0 {
            return false;
        }
        let magnitude_to_add = force_to_add.length();
        if magnitude_to_add < magnitude_remaining {
            proof {
                lemma_within_fits(force_to_add, magnitude_to_add as int);
                lemma_triangle(
                    total.x as int,
                    total.y as int,
                    force_to_add.x as int,
                    force_to_add.y as int,
                    magnitude_so_far as int,
                    magnitude_to_add as int,
                );
                crate::vec2::lemma_square_le(magnitude_so_far + magnitude_to_add, budget);
            }
            *running_total = running_total.plus(force_to_add);
        } else {
            // add as much of the force as is possible without going over the maximum
            let unit = force_to_add.normalize_or_zero();
            proof {
                lemma_within_fits(unit, SCALE as int);
                lemma_scale_fits(unit, magnitude_remaining as int);
                lemma_rescale_within(
                    unit.x as int,
                    unit.y as int,
                    SCALE as int,
                    magnitude_remaining as int,
                );
                let part = unit.scale_spec(magnitude_remaining as int);
                lemma_triangle(
                    total.x as int,
                    total.y as int,
                    part.x as int,
                    part.y as int,
                    magnitude_so_far as int,
                    magnitude_remaining as int,
                );
            }
            *running_total = running_total.plus(unit.scale(magnitude_remaining));
        }
        true
    }
}

/// What a group behaviour sums over the neighbours of an agent.
#[derive(Debug, Clone, Copy, PartialEq, Eq, Structural)]
pub enum GroupQuantity {
    /// The push away from the neighbour, stronger the closer it is.
    Repulsion,
    /// The neighbour's heading.
    Heading,
    /// The neighbour's position.
    Position,
}

/// The sum of a quantity over the neighbours considered, and their number.
#[derive(Debug, Clone, Copy)]
pub struct GroupSum {
    pub x: i128,
    pub y: i128,
    pub count: usize,
}

/// The push on an agent at `me` away from a neighbour at `other`: the unit
/// vector away from the neighbour divided by the distance; zero if the two
/// coincide.
pub open spec fn separation_term(me: Vec2, other: Vec2) -> Vec2 {
    let to_agent = me.minus_spec(other);
    if to_agent.norm_sq() == 0 {
        Vec2 { x: 0, y: 0 }
    } else {
        to_agent.normalized().div_spec(to_agent.len())
    }
}

/// What a neighbour contributes to the sum of `which` for an agent at `me`.
pub open spec fn quantity(which: GroupQuantity, me: Vec2, neighbor: Vehicle) -> Vec2 {
    match which {
        GroupQuantity::Repulsion => separation_term(me, neighbor.position),
        GroupQuantity::Heading => neighbor.heading,
        GroupQuantity::Position => neighbor.position,
    }
}

/// The x components of the contributions of the population to agent `me`.
pub open spec fn quantity_x(which: GroupQuantity, agents: Seq<Vehicle>, me: int) -> spec_fn(
    int,
) -> int {
    |i: int| quantity(which, agents[me].position, agents[i]).x as int
}

/// The y components of the contributions of the population to agent `me`.
pub open spec fn quantity_y(which: GroupQuantity, agents: Seq<Vehicle>, me: int) -> spec_fn(
    int,
) -> int {
    |i: int| quantity(which, agents[me].position, agents[i]).y as int
}

/// The largest magnitude that a component of a contribution can have.
pub open spec fn term_bound(which: GroupQuantity) -> int {
    match which {
        GroupQuantity::Repulsion => SCALE * SCALE,
        GroupQuantity::Heading => SCALE as int,
        GroupQuantity::Position => POSITION_MAX as int,
    }
}

/// The neighbours that the brute-force variants consider: every tagged agent
/// but `me` and the agent `excluded`.
pub open spec fn tagged_others(agents: Seq<Vehicle>, me: int, excluded: Option<usize>) -> spec_fn(
    int,
) -> bool {
    |i: int| i != me && agents[i].tag && excluded != Some(i as usize)
}

/// Every agent is well-formed, the population is not too large, and the
/// agents that pursuit and evade refer to exist.
pub open spec fn population_wf(agents: Seq<Vehicle>) -> bool {
    &&& agents.len() <= POPULATION_MAX
    &&& forall|i: int| 0 <= i < agents.len() ==> (#[trigger] agents[i]).wf()
    &&& forall|i: int|
        0 <= i < agents.len() ==> ((#[trigger] agents[i]).m_pSteering.m_pTargetAgent1 matches Some(
            t,
        ) ==> t < agents.len())
}

/// Whether the population is well-formed.
pub fn is_population_wf(agents: &Vec<Vehicle>) -> (ok: bool)
    ensures
        ok == population_wf(agents@),
{
    let n = agents.len();
    if n > POPULATION_MAX as usize {
        return false;
    }
    let mut i: usize = 0;
    while i < n
        invariant
            0 <= i <= n,
            n == agents@.len(),
            n <= POPULATION_MAX,
            forall|k: int| 0 <= k < i ==> (#[trigger] agents@[k]).wf(),
            forall|k: int|
                0 <= k < i ==> ((#[trigger] agents@[k]).m_pSteering.m_pTargetAgent1 matches Some(t)
                    ==> t < n),
        decreases n - i,
    {
        if !agents[i].is_wf() {
            return false;
        }
        match agents[i].m_pSteering.m_pTargetAgent1 {
            Some(t) => {
                if t >= n {
                    return false;
                }
            },
            None => {},
        }
        i = i + 1;
    }
    true
}

/// The separation force: the sum of the pushes away from the neighbours kept.
pub open spec fn separation_spec(agents: Seq<Vehicle>, me: int, keep: spec_fn(int) -> bool) -> Vec2 {
    Vec2 {
        x: sum_where(
            agents.len() as int,
            keep,
            quantity_x(GroupQuantity::Repulsion, agents, me),
        ) as i64,
        y: sum_where(
            agents.len() as int,
            keep,
            quantity_y(GroupQuantity::Repulsion, agents, me),
        ) as i64,
    }
}

/// The mean of `which` over the neighbours kept, rounded toward zero.
pub open spec fn group_mean(
    which: GroupQuantity,
    agents: Seq<Vehicle>,
    me: int,
    keep: spec_fn(int) -> bool,
) -> Vec2 {
    Vec2 {
        x: trunc_div(
            sum_where(agents.len() as int, keep, quantity_x(which, agents, me)),
            count_where(agents.len() as int, keep),
        ) as i64,
        y: trunc_div(
            sum_where(agents.len() as int, keep, quantity_y(which, agents, me)),
            count_where(agents.len() as int, keep),
        ) as i64,
    }
}

/// The alignment force: the mean heading of the neighbours kept minus the
/// agent's own heading; zero without neighbours.
pub open spec fn alignment_spec(agents: Seq<Vehicle>, me: int, keep: spec_fn(int) -> bool) -> Vec2 {
    if count_where(agents.len() as int, keep) > 0 {
        group_mean(GroupQuantity::Heading, agents, me, keep).minus_spec(agents[me].heading)
    } else {
        Vec2 { x: 0, y: 0 }
    }
}

/// The cohesion force: the direction of a seek to the centre of mass of the
/// neighbours kept, as a unit vector; zero without neighbours.
pub open spec fn cohesion_spec(agents: Seq<Vehicle>, me: int, keep: spec_fn(int) -> bool) -> Vec2 {
    if count_where(agents.len() as int, keep) > 0 {
        seek_spec(
            agents[me].position,
            agents[me].velocity,
            agents[me].max_speed as int,
            group_mean(GroupQuantity::Position, agents, me, keep),
        ).normalized()
    } else {
        Vec2 { x: 0, y: 0 }
    }
}

/// The contribution of `agent` to the sum of `which` for an agent at `me`.
fn quantity_of(which: GroupQuantity, me: Vec2, agent: &Vehicle) -> (q: Vec2)
    requires
        agent.wf(),
        me.fits(POSITION_MAX as int),
    ensures
        q == quantity(which, me, *agent),
        q.fits(term_bound(which)),
{
    match which {
        GroupQuantity::Repulsion => {
            let to_agent = me.minus(agent.position);
            if to_agent.length_squared() == 0 {
                return Vec2 { x: 0, y: 0 };
            }
            proof {
                lemma_fits_len(to_agent, 2 * POSITION_MAX);
            }
            let distance = to_agent.length();
            let unit = to_agent.normalize_or_zero();
            proof {
                assert(distance >= 1) by (nonlinear_arith)
                    requires
                        distance * distance >= to_agent.norm_sq(),
                        to_agent.norm_sq() > 0,
                        distance >= 0,
                ;
                lemma_within_fits(unit, SCALE as int);
                assert(magnitude(unit.x as int) * SCALE <= i64::MAX * distance && magnitude(
                    unit.y as int,
                ) * SCALE <= i64::MAX * distance) by (nonlinear_arith)
                    requires
                        0 <= magnitude(unit.x as int) <= SCALE,
                        0 <= magnitude(unit.y as int) <= SCALE,
                        distance >= 1,
                        SCALE == 1000,
                ;
                lemma_product_magnitude(unit.x as int, SCALE as int);
                lemma_product_magnitude(unit.y as int, SCALE as int);
                lemma_trunc_div_bounds(unit.x * SCALE, distance as int);
                lemma_trunc_div_bounds(unit.y * SCALE, distance as int);
            }
            // the force is inversely proportional to the distance
            unit.div(distance)
        },
        GroupQuantity::Heading => {
            proof {
                lemma_within_fits(agent.heading, SCALE as int);
            }
            agent.heading
        },
        GroupQuantity::Position => agent.position,
    }
}

/// Sums `which` over the tagged agents other than `me` and the agent that
/// `me` pursues or evades.
pub fn sum_tagged(agents: &Vec<Vehicle>, me: usize, which: GroupQuantity) -> (s: GroupSum)
    requires
        population_wf(agents@),
        me < agents@.len(),
    ensures
        s.x == sum_where(
            agents@.len() as int,
            tagged_others(agents@, me as int, agents@[me as int].m_pSteering.m_pTargetAgent1),
            quantity_x(which, agents@, me as int),
        ),
        s.y == sum_where(
            agents@.len() as int,
            tagged_others(agents@, me as int, agents@[me as int].m_pSteering.m_pTargetAgent1),
            quantity_y(which, agents@, me as int),
        ),
        s.count == count_where(
            agents@.len() as int,
            tagged_others(agents@, me as int, agents@[me as int].m_pSteering.m_pTargetAgent1),
        ),
        -(s.count * term_bound(which)) <= s.x <= s.count * term_bound(which),
        -(s.count * term_bound(which)) <= s.y <= s.count * term_bound(which),
        s.count <= agents@.len(),
{
    let n = agents.len();
    let own = agents[me].position;
    let excluded = agents[me].m_pSteering.m_pTargetAgent1;
    let ghost keep = tagged_others(agents@, me as int, excluded);
    let ghost tx = quantity_x(which, agents@, me as int);
    let ghost ty = quantity_y(which, agents@, me as int);
    let mut sum = GroupSum { x: 0, y: 0, count: 0 };
    let mut i: usize = 0;
    while i < n
        invariant
            0 <= i <= n,
            n == agents@.len(),
            me < n,
            population_wf(agents@),
            own == agents@[me as int].position,
            excluded == agents@[me as int].m_pSteering.m_pTargetAgent1,
            keep == tagged_others(agents@, me as int, excluded),
            tx == quantity_x(which, agents@, me as int),
            ty == quantity_y(which, agents@, me as int),
            sum.x == sum_where(i as int, keep, tx),
            sum.y == sum_where(i as int, keep, ty),
            sum.count == count_where(i as int, keep),
            sum.count <= i,
            -(sum.count * term_bound(which)) <= sum.x <= sum.count * term_bound(which),
            -(sum.count * term_bound(which)) <= sum.y <= sum.count * term_bound(which),
        decreases n - i,
    {
        let is_target = match excluded {
            Some(t) => t == i,
            None => false,
        };
        // leave out this agent itself, agents out of range and the agent evaded
        if i != me && agents[i].tag && !is_target {
            let q = quantity_of(which, own, &agents[i]);
            proof {
                lemma_sum_bound_step(sum.count as int, term_bound(which));
            }
            sum = GroupSum { x: sum.x + (q.x as i128), y: sum.y + (q.y as i128), count: sum.count + 1 };
        }
        i = i + 1;
    }
    sum
}

/// Sums `which` over the agents in `neighbors` other than `me`.
pub fn sum_listed(agents: &Vec<Vehicle>, me: usize, neighbors: &Vec<usize>, which: GroupQuantity) -> (s:
    GroupSum)
    requires
        population_wf(agents@),
        me < agents@.len(),
        neighbors@.no_duplicates(),
        forall|k: int| 0 <= k < neighbors@.len() ==> neighbors@[k] < agents@.len(),
    ensures
        s.x == sum_where(
            agents@.len() as int,
            listed(neighbors@, neighbors@.len() as int, me as int),
            quantity_x(which, agents@, me as int),
        ),
        s.y == sum_where(
            agents@.len() as int,
            listed(neighbors@, neighbors@.len() as int, me as int),
            quantity_y(which, agents@, me as int),
        ),
        s.count == count_where(
            agents@.len() as int,
            listed(neighbors@, neighbors@.len() as int, me as int),
        ),
        -(s.count * term_bound(which)) <= s.x <= s.count * term_bound(which),
        -(s.count * term_bound(which)) <= s.y <= s.count * term_bound(which),
        s.count <= agents@.len(),
{
    let n = agents.len();
    let len = neighbors.len();
    let own = agents[me].position;
    let ghost list = neighbors@;
    let ghost tx = quantity_x(which, agents@, me as int);
    let ghost ty = quantity_y(which, agents@, me as int);
    let mut sum = GroupSum { x: 0, y: 0, count: 0 };
    let mut k: usize = 0;
    proof {
        lemma_sum_where_none(n as int, listed(list, 0, me as int), tx);
        lemma_sum_where_none(n as int, listed(list, 0, me as int), ty);
    }
    while k < len
        invariant
            0 <= k <= len,
            len == neighbors@.len(),
            list == neighbors@,
            n == agents@.len(),
            me < n,
            population_wf(agents@),
            own == agents@[me as int].position,
            list.no_duplicates(),
            forall|j: int| 0 <= j < list.len() ==> list[j] < n,
            tx == quantity_x(which, agents@, me as int),
            ty == quantity_y(which, agents@, me as int),
            sum.x == sum_where(n as int, listed(list, k as int, me as int), tx),
            sum.y == sum_where(n as int, listed(list, k as int, me as int), ty),
            sum.count == count_where(n as int, listed(list, k as int, me as int)),
            sum.count <= n,
            -(sum.count * term_bound(which)) <= sum.x <= sum.count * term_bound(which),
            -(sum.count * term_bound(which)) <= sum.y <= sum.count * term_bound(which),
        decreases len - k,
    {
        let e = neighbors[k];
        let ghost before = listed(list, k as int, me as int);
        let ghost after = listed(list, k as int + 1, me as int);
        proof {
            assert(list.take(k as int + 1) =~= list.take(k as int).push(e));
            assert(!list.take(k as int).contains(e));
            assert forall|i: int| 0 <= i < n implies #[trigger] after(i) == (before(i) || (i == e
                && e != me)) by {
                lemma_push_contains(list.take(k as int), e, i as usize);
            }
        }
        if e != me {
            let q = quantity_of(which, own, &agents[e]);
            proof {
                lemma_sum_where_add(n as int, before, after, tx, e as int);
                lemma_sum_where_add(n as int, before, after, ty, e as int);
                lemma_count_where_bound(n as int, after);
                lemma_sum_bound_step(sum.count as int, term_bound(which));
            }
            sum = GroupSum { x: sum.x + (q.x as i128), y: sum.y + (q.y as i128), count: sum.count + 1 };
        } else {
            proof {
                lemma_sum_where_ext(n as int, before, after, tx, tx);
                lemma_sum_where_ext(n as int, before, after, ty, ty);
            }
        }
        k = k + 1;
    }
    sum
}

/// The bound on a sum grows by one term's bound with each term.
proof fn lemma_sum_bound_step(count: int, bound: int)
    requires
        0 <= count <= usize::MAX,
        0 <= bound <= POSITION_MAX,
    ensures
        (count + 1) * bound == count * bound + bound,
        0 <= count * bound <= 0x1_0000_0000_0000_0000 * POSITION_MAX,
{
    assert((count + 1) * bound == count * bound + bound) by (nonlinear_arith);
    assert(0 <= count * bound <= 0x1_0000_0000_0000_0000 * POSITION_MAX) by (nonlinear_arith)
        requires
            0 <= count <= 0x1_0000_0000_0000_0000,
            0 <= bound <= POSITION_MAX,
    ;
}

/// Largest magnitude of a component of a behaviour's force before weighting.
pub const RAW_FORCE_MAX: i64 = 10_000_000_000_000;

/// The force that a sum of pushes stands for.
pub open spec fn sum_as_force(sum: GroupSum) -> Vec2 {
    Vec2 { x: sum.x as i64, y: sum.y as i64 }
}

/// The mean that a sum stands for, rounded toward zero.
pub open spec fn sum_mean(sum: GroupSum) -> Vec2 {
    Vec2 {
        x: trunc_div(sum.x as int, sum.count as int) as i64,
        y: trunc_div(sum.y as int, sum.count as int) as i64,
    }
}

/// The mean of a sum over at least one neighbour.
fn mean_of_sum(sum: GroupSum, Ghost(bound): Ghost<int>) -> (m: Vec2)
    requires
        sum.count > 0,
        0 <= bound <= POSITION_MAX,
        -(sum.count * bound) <= sum.x <= sum.count * bound,
        -(sum.count * bound) <= sum.y <= sum.count * bound,
    ensures
        m == sum_mean(sum),
        m.fits(bound),
{
    proof {
        lemma_trunc_div_bounds(sum.x as int, sum.count as int);
        lemma_trunc_div_bounds(sum.y as int, sum.count as int);
        let qx = magnitude(trunc_div(sum.x as int, sum.count as int));
        let qy = magnitude(trunc_div(sum.y as int, sum.count as int));
        lemma_sum_bound_step(sum.count as int, bound);
        assert(qx <= bound && qy <= bound) by (nonlinear_arith)
            requires
                qx * sum.count <= magnitude(sum.x as int),
                qy * sum.count <= magnitude(sum.y as int),
                magnitude(sum.x as int) <= sum.count * bound,
                magnitude(sum.y as int) <= sum.count * bound,
                sum.count > 0,
        ;
    }
    let x: i128 = div_toward_zero(sum.x, sum.count as i128);
    let y: i128 = div_toward_zero(sum.y, sum.count as i128);
    Vec2 { x: x as i64, y: y as i64 }
}

/// The separation force from the sum of the pushes.
fn separation_from(sum: GroupSum, Ghost(population): Ghost<int>) -> (force: Vec2)
    requires
        sum.count <= population <= POPULATION_MAX,
        -(sum.count * (SCALE * SCALE)) <= sum.x <= sum.count * (SCALE * SCALE),
        -(sum.count * (SCALE * SCALE)) <= sum.y <= sum.count * (SCALE * SCALE),
    ensures
        force == sum_as_force(sum),
        force.fits(RAW_FORCE_MAX as int),
{
    proof {
        assert(sum.count * (SCALE * SCALE) <= RAW_FORCE_MAX) by (nonlinear_arith)
            requires
                0 <= sum.count <= 1_000_000,
                SCALE == 1000,
                RAW_FORCE_MAX == 10_000_000_000_000,
        ;
    }
    Vec2 { x: sum.x as i64, y: sum.y as i64 }
}

/// The alignment force from the sum of the neighbours' headings.
fn alignment_from(sum: GroupSum, vehicle: &Vehicle) -> (force: Vec2)
    requires
        vehicle.wf(),
        -(sum.count * SCALE) <= sum.x <= sum.count * SCALE,
        -(sum.count * SCALE) <= sum.y <= sum.count * SCALE,
    ensures
        force == (if sum.count > 0 {
            sum_mean(sum).minus_spec(vehicle.heading)
        } else {
            Vec2 { x: 0, y: 0 }
        }),
        force.fits(RAW_FORCE_MAX as int),
{
    if sum.count > 0 {
        let average = mean_of_sum(sum, Ghost(SCALE as int));
        proof {
            lemma_within_fits(vehicle.heading, SCALE as int);
        }
        average.minus(vehicle.heading)
    } else {
        Vec2 { x: 0, y: 0 }
    }
}

/// The cohesion force from the sum of the neighbours' positions.
fn cohesion_from(sum: GroupSum, vehicle: &Vehicle) -> (force: Vec2)
    requires
        vehicle.wf(),
        -(sum.count * POSITION_MAX) <= sum.x <= sum.count * POSITION_MAX,
        -(sum.count * POSITION_MAX) <= sum.y <= sum.count * POSITION_MAX,
    ensures
        force == (if sum.count > 0 {
            seek_spec(
                vehicle.position,
                vehicle.velocity,
                vehicle.max_speed as int,
                sum_mean(sum),
            ).normalized()
        } else {
            Vec2 { x: 0, y: 0 }
        }),
        force.fits(RAW_FORCE_MAX as int),
{
    if sum.count > 0 {
        // the centre of mass is the average of the positions
        let center_of_mass = mean_of_sum(sum, Ghost(POSITION_MAX as int));
        // seek towards it; the magnitude of cohesion is usually much larger
        // than that of separation or alignment, so the force is normalized
        let force = SteeringBehavior::Seek(vehicle, center_of_mass).normalize_or_zero();
        proof {
            lemma_within_fits(force, SCALE as int);
        }
        force
    } else {
        Vec2 { x: 0, y: 0 }
    }
}

/// The neighbours that a group behaviour of agent `me` considers: the
/// listed ones if the agent uses the spatial partition, else the tagged ones.
pub open spec fn group_keep(agents: Seq<Vehicle>, me: int, neighbors: Seq<usize>) -> spec_fn(
    int,
) -> bool {
    if agents[me].m_pSteering.m_bCellSpaceOn {
        listed(neighbors, neighbors.len() as int, me)
    } else {
        tagged_others(agents, me, agents[me].m_pSteering.m_pTargetAgent1)
    }
}

/// The evade force of agent `me`, which flees from its target agent.
pub open spec fn evade_force(agents: Seq<Vehicle>, me: int) -> Vec2 {
    match agents[me].m_pSteering.m_pTargetAgent1 {
        Some(t) => evade_spec(&agents[me], &agents[t as int]),
        None => Vec2 { x: 0, y: 0 },
    }
}

/// One stage of the prioritized sum: if budget is left and the behaviour is
/// on, its weighted force goes through the force budget.
pub open spec fn stage(state: (Vec2, bool), on: bool, force: Vec2, weight: int, max_force: int) -> (
    Vec2,
    bool,
) {
    if state.1 && on {
        accumulate_spec(max_force, state.0, force.scale_spec(weight))
    } else {
        state
    }
}

/// The running total and budget flag after the behaviours that come before
/// wander: evade, flee, separation, alignment and cohesion, in this order.
pub open spec fn before_wander(
    agents: Seq<Vehicle>,
    me: int,
    keep: spec_fn(int) -> bool,
    crosshair: Vec2,
) -> (Vec2, bool) {
    let v = agents[me];
    let s = v.m_pSteering;
    let m = v.max_force as int;
    let s0 = (Vec2 { x: 0, y: 0 }, true);
    let s1 = stage(
        s0,
        s.enabled(BehaviorType::evade),
        evade_force(agents, me),
        s.m_dWeightEvade as int,
        m,
    );
    let s2 = stage(
        s1,
        s.enabled(BehaviorType::flee),
        flee_spec(v.position, v.velocity, v.max_speed as int, crosshair),
        s.m_dWeightFlee as int,
        m,
    );
    let s3 = stage(
        s2,
        s.enabled(BehaviorType::separation),
        separation_spec(agents, me, keep),
        s.m_dWeightSeparation as int,
        m,
    );
    let s4 = stage(
        s3,
        s.enabled(BehaviorType::alignment),
        alignment_spec(agents, me, keep),
        s.m_dWeightAlignment as int,
        m,
    );
    stage(
        s4,
        s.enabled(BehaviorType::cohesion),
        cohesion_spec(agents, me, keep),
        s.m_dWeightCohesion as int,
        m,
    )
}

/// The steering force of agent `me` and its wander target afterwards. The
/// behaviours are evaluated in the order evade, flee, separation, alignment,
/// cohesion, wander; each weighted force goes through the force budget, and
/// once the budget is used up no further behaviour is evaluated. The wander
/// target moves only if wander is evaluated.
pub open spec fn prioritized_spec(
    agents: Seq<Vehicle>,
    me: int,
    keep: spec_fn(int) -> bool,
    crosshair: Vec2,
    jitter: Vec2,
) -> (Vec2, Vec2) {
    let v = agents[me];
    let s = v.m_pSteering;
    let s5 = before_wander(agents, me, keep, crosshair);
    if s5.1 && s.enabled(BehaviorType::wander) {
        let target = wander_target_spec(&s, v.m_dTimeElapsed as int, jitter);
        (
            accumulate_spec(
                v.max_force as int,
                s5.0,
                wander_force_spec(&v, target).scale_spec(s.m_dWeightWander as int),
            ).0,
            target,
        )
    } else {
        (s5.0, s.m_vWanderTarget)
    }
}

/// Multiplies a behaviour's force by its weight.
fn weighted(force: Vec2, weight: i64) -> (r: Vec2)
    requires
        force.fits(RAW_FORCE_MAX as int),
        0 <= weight <= WEIGHT_MAX,
    ensures
        r == force.scale_spec(weight as int),
        r.fits(COMPONENT_MAX as int),
{
    proof {
        let mx = magnitude(force.x as int);
        let my = magnitude(force.y as int);
        assert(mx * magnitude(weight as int) <= RAW_FORCE_MAX * WEIGHT_MAX && my * magnitude(
            weight as int,
        ) <= RAW_FORCE_MAX * WEIGHT_MAX) by (nonlinear_arith)
            requires
                0 <= mx <= RAW_FORCE_MAX,
                0 <= my <= RAW_FORCE_MAX,
                0 <= magnitude(weight as int) <= WEIGHT_MAX,
        ;
        lemma_product_magnitude(force.x as int, weight as int);
        lemma_product_magnitude(force.y as int, weight as int);
        lemma_trunc_div_bounds(force.x * weight, SCALE as int);
        lemma_trunc_div_bounds(force.y * weight, SCALE as int);
    }
    force.scale(weight)
}

impl SteeringBehavior {
    /// Whether the steering state is well-formed.
    pub fn is_wf(&self) -> (ok: bool)
        ensures
            ok == self.wf(),
    {
        if !(is_between(self.m_dWeightSeparation, 0, WEIGHT_MAX) && is_between(
            self.m_dWeightAlignment,
            0,
            WEIGHT_MAX,
        ) && is_between(self.m_dWeightCohesion, 0, WEIGHT_MAX) && is_between(
            self.m_dWeightWander,
            0,
            WEIGHT_MAX,
        ) && is_between(self.m_dWeightFlee, 0, WEIGHT_MAX) && is_between(
            self.m_dWeightEvade,
            0,
            WEIGHT_MAX,
        ) && is_between(self.m_dViewDistance, 0, SCALAR_MAX) && is_between(
            self.m_dThreatRange,
            0,
            SCALAR_MAX,
        ) && is_between(self.m_dWanderJitter, 0, SCALAR_MAX) && is_between(
            self.m_dWanderRadius,
            0,
            SCALAR_MAX,
        ) && is_between(self.m_dWanderDistance, 0, SCALAR_MAX)) {
            return false;
        }
        if !self.m_vWanderTarget.is_within(self.m_dWanderRadius) {
            return false;
        }
        let needs_target = self.On(BehaviorType::evade) || self.On(BehaviorType::pursuit);
        !needs_target || self.m_pTargetAgent1.is_some()
    }

    /// The flags hold only behaviours that the prioritized sum evaluates.
    pub open spec fn only_supported(&self) -> bool {
        self.m_iFlags & !SUPPORTED_FLAGS == 0
    }

    /// Whether one of the three group behaviours is on.
    pub open spec fn group_enabled(&self) -> bool {
        self.enabled(BehaviorType::separation) || self.enabled(BehaviorType::alignment)
            || self.enabled(BehaviorType::cohesion)
    }

    /// The force that repels agent `me` from its tagged neighbours.
    pub fn Separation(agents: &Vec<Vehicle>, me: usize) -> (force: Vec2)
        requires
            population_wf(agents@),
            me < agents@.len(),
        ensures
            force == separation_spec(
                agents@,
                me as int,
                tagged_others(agents@, me as int, agents@[me as int].m_pSteering.m_pTargetAgent1),
            ),
            force.fits(RAW_FORCE_MAX as int),
    {
        separation_from(sum_tagged(agents, me, GroupQuantity::Repulsion), Ghost(agents@.len() as int))
    }

    /// The force that aligns the heading of agent `me` with that of its
    /// tagged neighbours.
    pub fn Alignment(agents: &Vec<Vehicle>, me: usize) -> (force: Vec2)
        requires
            population_wf(agents@),
            me < agents@.len(),
        ensures
            force == alignment_spec(
                agents@,
                me as int,
                tagged_others(agents@, me as int, agents@[me as int].m_pSteering.m_pTargetAgent1),
            ),
            force.fits(RAW_FORCE_MAX as int),
    {
        alignment_from(sum_tagged(agents, me, GroupQuantity::Heading), &agents[me])
    }

    /// The force that moves agent `me` towards the centre of mass of its
    /// tagged neighbours.
    pub fn Cohesion(agents: &Vec<Vehicle>, me: usize) -> (force: Vec2)
        requires
            population_wf(agents@),
            me < agents@.len(),
        ensures
            force == cohesion_spec(
                agents@,
                me as int,
                tagged_others(agents@, me as int, agents@[me as int].m_pSteering.m_pTargetAgent1),
            ),
            force.fits(RAW_FORCE_MAX as int),
    {
        cohesion_from(sum_tagged(agents, me, GroupQuantity::Position), &agents[me])
    }

    /// `Separation` over the neighbours that the spatial partition found.
    pub fn SeparationPlus(agents: &Vec<Vehicle>, me: usize, neighbors: &Vec<usize>) -> (force: Vec2)
        requires
            population_wf(agents@),
            me < agents@.len(),
            neighbors@.no_duplicates(),
            forall|k: int| 0 <= k < neighbors@.len() ==> neighbors@[k] < agents@.len(),
        ensures
            force == separation_spec(
                agents@,
                me as int,
                listed(neighbors@, neighbors@.len() as int, me as int),
            ),
            force.fits(RAW_FORCE_MAX as int),
    {
        separation_from(
            sum_listed(agents, me, neighbors, GroupQuantity::Repulsion),
            Ghost(agents@.len() as int),
        )
    }

    /// `Alignment` over the neighbours that the spatial partition found.
    pub fn AlignmentPlus(agents: &Vec<Vehicle>, me: usize, neighbors: &Vec<usize>) -> (force: Vec2)
        requires
            population_wf(agents@),
            me < agents@.len(),
            neighbors@.no_duplicates(),
            forall|k: int| 0 <= k < neighbors@.len() ==> neighbors@[k] < agents@.len(),
        ensures
            force == alignment_spec(
                agents@,
                me as int,
                listed(neighbors@, neighbors@.len() as int, me as int),
            ),
            force.fits(RAW_FORCE_MAX as int),
    {
        alignment_from(sum_listed(agents, me, neighbors, GroupQuantity::Heading), &agents[me])
    }

    /// `Cohesion` over the neighbours that the spatial partition found.
    pub fn CohesionPlus(agents: &Vec<Vehicle>, me: usize, neighbors: &Vec<usize>) -> (force: Vec2)
        requires
            population_wf(agents@),
            me < agents@.len(),
            neighbors@.no_duplicates(),
            forall|k: int| 0 <= k < neighbors@.len() ==> neighbors@[k] < agents@.len(),
        ensures
            force == cohesion_spec(
                agents@,
                me as int,
                listed(neighbors@, neighbors@.len() as int, me as int),
            ),
            force.fits(RAW_FORCE_MAX as int),
    {
        cohesion_from(sum_listed(agents, me, neighbors, GroupQuantity::Position), &agents[me])
    }

    /// The weighted sum of the forces of all active behaviours is not
    /// implemented: the answer is always that error.
    pub fn CalculateWeightedSum() -> (r: Result<Vec2, SteeringError>)
        ensures
            r == Err::<Vec2, SteeringError>(SteeringError::SummingMethodNotImplemented),
    {
        Err(SteeringError::SummingMethodNotImplemented)
    }

    /// The dithered sum, which evaluates each behaviour only with a certain
    /// probability, is not implemented: the answer is always that error.
    pub fn CalculateDithered() -> (r: Result<Vec2, SteeringError>)
        ensures
            r == Err::<Vec2, SteeringError>(SteeringError::SummingMethodNotImplemented),
    {
        Err(SteeringError::SummingMethodNotImplemented)
    }

    /// Calls each active behaviour of agent `me` in order of priority and
    /// accumulates the forces until the maximum steering force is reached.
    /// Returns the force and the agent's wander target afterwards.
    pub fn CalculatePrioritized(
        agents: &Vec<Vehicle>,
        me: usize,
        neighbors: &Vec<usize>,
        crosshair: Vec2,
        jitter: Vec2,
    ) -> (r: (Vec2, Vec2))
        requires
            population_wf(agents@),
            me < agents@.len(),
            neighbors@.no_duplicates(),
            forall|k: int| 0 <= k < neighbors@.len() ==> neighbors@[k] < agents@.len(),
            crosshair.fits(COORD_MAX as int),
            jitter.fits(SCALE as int),
        ensures
            r == prioritized_spec(
                agents@,
                me as int,
                group_keep(agents@, me as int, neighbors@),
                crosshair,
                jitter,
            ),
            r.0.within(agents@[me as int].max_force as int),
            r.1.within(agents@[me as int].m_pSteering.m_dWanderRadius as int),
    {
        let vehicle = &agents[me];
        let steering = &vehicle.m_pSteering;
        let partitioned = steering.isSpacePartitioningOn();
        let mut total = Vec2 { x: 0, y: 0 };
        let mut live = true;
        proof {
            assert(total.within(vehicle.max_force as int)) by (nonlinear_arith)
                requires
                    total.x == 0,
                    total.y == 0,
                    vehicle.max_force >= 0,
                    total.within(vehicle.max_force as int) == (total.x * total.x + total.y * total.y
                        <= vehicle.max_force * vehicle.max_force),
            ;
        }
        if steering.On(BehaviorType::evade) {
            let force = match steering.m_pTargetAgent1 {
                Some(t) => Self::Evade(vehicle, &agents[t]),
                None => Vec2 { x: 0, y: 0 },
            };
            live = Self::AccumulateForce(vehicle, &mut total, weighted(force, steering.m_dWeightEvade));
        }
        if live && steering.On(BehaviorType::flee) {
            let force = Self::Flee(vehicle, crosshair);
            live = Self::AccumulateForce(vehicle, &mut total, weighted(force, steering.m_dWeightFlee));
        }
        // these next three can be combined for flocking behaviour
        if live && steering.On(BehaviorType::separation) {
            let force = if partitioned {
                Self::SeparationPlus(agents, me, neighbors)
            } else {
                Self::Separation(agents, me)
            };
            live = Self::AccumulateForce(
                vehicle,
                &mut total,
                weighted(force, steering.m_dWeightSeparation),
            );
        }
        if live && steering.On(BehaviorType::alignment) {
            let force = if partitioned {
                Self::AlignmentPlus(agents, me, neighbors)
            } else {
                Self::Alignment(agents, me)
            };
            live = Self::AccumulateForce(
                vehicle,
                &mut total,
                weighted(force, steering.m_dWeightAlignment),
            );
        }
        if live && steering.On(BehaviorType::cohesion) {
            let force = if partitioned {
                Self::CohesionPlus(agents, me, neighbors)
            } else {
                Self::Cohesion(agents, me)
            };
            live = Self::AccumulateForce(
                vehicle,
                &mut total,
                weighted(force, steering.m_dWeightCohesion),
            );
        }
        assert((total, live) == before_wander(
            agents@,
            me as int,
            group_keep(agents@, me as int, neighbors@),
            crosshair,
        ));
        let mut wander_target = steering.m_vWanderTarget;
        if live && steering.On(BehaviorType::wander) {
            let (force, target) = Self::Wander(vehicle, jitter);
            wander_target = target;
            Self::AccumulateForce(vehicle, &mut total, weighted(force, steering.m_dWeightWander));
        }
        (total, wander_target)
    }
}

/// The agents other than `me` that are strictly closer to it than its view distance.
pub open spec fn in_view(agents: Seq<Vehicle>, me: int) -> spec_fn(int) -> bool {
    |i: int|
        i != me && 0 <= i < agents.len() && in_range(
            agents[i].position,
            agents[me].position,
            agents[me].m_pSteering.m_dViewDistance as int,
        )
}

/// The population as agent `me` sees it when it computes its force: without
/// the spatial partition, and with a group behaviour on, the tags are
/// refreshed for `me` first.
pub open spec fn perceived(agents: Seq<Vehicle>, me: int) -> Seq<Vehicle> {
    let s = agents[me].m_pSteering;
    if !s.m_bCellSpaceOn && s.group_enabled() {
        tagged_population(agents, me, s.m_dViewDistance as int)
    } else {
        agents
    }
}

/// The neighbours that the group behaviours of agent `me` consider: with the
/// spatial partition the agents in view; without it the tagged agents, but
/// for the agent that `me` pursues or evades.
pub open spec fn considered(agents: Seq<Vehicle>, me: int) -> spec_fn(int) -> bool {
    if agents[me].m_pSteering.m_bCellSpaceOn {
        in_view(agents, me)
    } else {
        tagged_others(agents, me, agents[me].m_pSteering.m_pTargetAgent1)
    }
}

/// The steering force of agent `me` and its wander target afterwards.
pub open spec fn steering_spec(agents: Seq<Vehicle>, me: int, crosshair: Vec2, jitter: Vec2) -> (
    Vec2,
    Vec2,
) {
    let p = perceived(agents, me);
    prioritized_spec(p, me, considered(p, me), crosshair, jitter)
}

/// The population after agent `me` has computed its steering force: as `me`
/// perceived it, with the force and the wander target stored in `me`.
pub open spec fn calculated(agents: Seq<Vehicle>, me: int, crosshair: Vec2, jitter: Vec2) -> Seq<
    Vehicle,
> {
    let p = perceived(agents, me);
    let r = steering_spec(agents, me, crosshair, jitter);
    p.update(
        me,
        Vehicle {
            m_pSteering: SteeringBehavior {
                m_vSteeringForce: r.0,
                m_vWanderTarget: r.1,
                ..p[me].m_pSteering
            },
            ..p[me]
        },
    )
}

/// Refreshing the tags changes no position and keeps a population well-formed.
pub proof fn lemma_tagging_keeps_wf(agents: Seq<Vehicle>, me: int, radius: int)
    requires
        population_wf(agents),
    ensures
        population_wf(tagged_population(agents, me, radius)),
        positions_of(tagged_population(agents, me, radius)) == positions_of(agents),
        forall|i: int|
            0 <= i < agents.len() ==> (#[trigger] tagged_population(agents, me, radius)[i]).m_pSteering
                == agents[i].m_pSteering,
{
}

/// The group forces depend only on which agents are kept: predicates that
/// agree on the population give the same steering force.
pub proof fn lemma_prioritized_ext(
    agents: Seq<Vehicle>,
    me: int,
    keep1: spec_fn(int) -> bool,
    keep2: spec_fn(int) -> bool,
    crosshair: Vec2,
    jitter: Vec2,
)
    requires
        forall|i: int| 0 <= i < agents.len() ==> #[trigger] keep1(i) == keep2(i),
    ensures
        separation_spec(agents, me, keep1) == separation_spec(agents, me, keep2),
        alignment_spec(agents, me, keep1) == alignment_spec(agents, me, keep2),
        cohesion_spec(agents, me, keep1) == cohesion_spec(agents, me, keep2),
        prioritized_spec(agents, me, keep1, crosshair, jitter) == prioritized_spec(
            agents,
            me,
            keep2,
            crosshair,
            jitter,
        ),
{
    let n = agents.len() as int;
    lemma_sum_where_ext(
        n,
        keep1,
        keep2,
        quantity_x(GroupQuantity::Repulsion, agents, me),
        quantity_x(GroupQuantity::Repulsion, agents, me),
    );
    lemma_sum_where_ext(
        n,
        keep1,
        keep2,
        quantity_y(GroupQuantity::Repulsion, agents, me),
        quantity_y(GroupQuantity::Repulsion, agents, me),
    );
    lemma_sum_where_ext(
        n,
        keep1,
        keep2,
        quantity_x(GroupQuantity::Heading, agents, me),
        quantity_x(GroupQuantity::Heading, agents, me),
    );
    lemma_sum_where_ext(
        n,
        keep1,
        keep2,
        quantity_y(GroupQuantity::Heading, agents, me),
        quantity_y(GroupQuantity::Heading, agents, me),
    );
    lemma_sum_where_ext(
        n,
        keep1,
        keep2,
        quantity_x(GroupQuantity::Position, agents, me),
        quantity_x(GroupQuantity::Position, agents, me),
    );
    lemma_sum_where_ext(
        n,
        keep1,
        keep2,
        quantity_y(GroupQuantity::Position, agents, me),
        quantity_y(GroupQuantity::Position, agents, me),
    );
}

/// With no group behaviour on, the steering force does not depend on the
/// neighbours at all.
pub proof fn lemma_prioritized_without_group(
    agents: Seq<Vehicle>,
    me: int,
    keep1: spec_fn(int) -> bool,
    keep2: spec_fn(int) -> bool,
    crosshair: Vec2,
    jitter: Vec2,
)
    requires
        !agents[me].m_pSteering.group_enabled(),
    ensures
        prioritized_spec(agents, me, keep1, crosshair, jitter) == prioritized_spec(
            agents,
            me,
            keep2,
            crosshair,
            jitter,
        ),
{
}

impl SteeringBehavior {
    /// Computes the steering force of agent `me` from its active behaviours
    /// and stores it, with the new wander target, in the agent. Without the
    /// spatial partition the tags of the population are refreshed for `me`
    /// first; with it the partition's neighbour list is. Fails, and changes
    /// nothing, if the agent's summing method is not the prioritized one or
    /// if a behaviour is on that the prioritized sum does not evaluate.
    pub fn Calculate(
        agents: &mut Vec<Vehicle>,
        me: usize,
        cell_space: &mut CellSpacePartition,
        crosshair: Vec2,
        jitter: Vec2,
    ) -> (r: Result<Vec2, SteeringError>)
        requires
            population_wf(old(agents)@),
            me < old(agents)@.len(),
            crosshair.fits(COORD_MAX as int),
            jitter.fits(SCALE as int),
            old(cell_space).wf(),
            old(agents)@[me as int].m_pSteering.m_bCellSpaceOn ==> {
                &&& old(cell_space).tracks(
                    positions_of(old(agents)@),
                    old(agents)@.len() as int,
                )
                &&& forall|i: int|
                    0 <= i < old(agents)@.len() ==> old(cell_space).inside(
                        #[trigger] positions_of(old(agents)@)[i],
                    )
            },
        ensures
            r == Err::<Vec2, SteeringError>(SteeringError::SummingMethodNotImplemented) <==> old(
                agents,
            )@[me as int].m_pSteering.m_SummingMethod != SummingMethod::prioritized,
            r == Err::<Vec2, SteeringError>(SteeringError::BehaviorNotImplemented) <==> (old(
                agents,
            )@[me as int].m_pSteering.m_SummingMethod == SummingMethod::prioritized && !old(
                agents,
            )@[me as int].m_pSteering.only_supported()),
            r is Err ==> final(agents)@ == old(agents)@ && *final(cell_space) == *old(cell_space),
            r matches Ok(force) ==> {
                &&& final(agents)@ == calculated(old(agents)@, me as int, crosshair, jitter)
                &&& force == steering_spec(old(agents)@, me as int, crosshair, jitter).0
                &&& force.within(old(agents)@[me as int].max_force as int)
            },
            population_wf(final(agents)@),
            positions_of(final(agents)@) == positions_of(old(agents)@),
            final(cell_space).wf(),
            final(cell_space).same_grid(old(cell_space)),
            final(cell_space).m_Cells == old(cell_space).m_Cells,
            r is Ok && old(agents)@[me as int].m_pSteering.m_bCellSpaceOn && old(
                agents,
            )@[me as int].m_pSteering.group_enabled() ==> {
                &&& final(cell_space).m_Neighbors@.no_duplicates()
                &&& forall|i: usize|
                    final(cell_space).m_Neighbors@.contains(i) <==> #[trigger] qualifies(
                        positions_of(old(agents)@),
                        old(agents)@[me as int].position,
                        old(agents)@[me as int].m_pSteering.m_dViewDistance as int,
                        i as int,
                    )
            },
            !(r is Ok && old(agents)@[me as int].m_pSteering.m_bCellSpaceOn && old(
                agents,
            )@[me as int].m_pSteering.group_enabled()) ==> final(cell_space).m_Neighbors == old(
                cell_space,
            ).m_Neighbors,
    {
        let steering = agents[me].m_pSteering;
        match steering.m_SummingMethod {
            SummingMethod::weighted_average => {
                return Self::CalculateWeightedSum();
            },
            SummingMethod::dithered => {
                return Self::CalculateDithered();
            },
            SummingMethod::prioritized => {},
        }
        if steering.m_iFlags & !SUPPORTED_FLAGS != 0 {
            return Err(SteeringError::BehaviorNotImplemented);
        }
        let group_on = steering.On(BehaviorType::separation) || steering.On(BehaviorType::alignment)
            || steering.On(BehaviorType::cohesion);
        let ghost start = agents@;
        let none: Vec<usize> = Vec::new();
        let result: (Vec2, Vec2);
        if !steering.m_bCellSpaceOn {
            if group_on {
                // tag the neighbours within view range
                TagNeighbors(agents, me, steering.m_dViewDistance);
                proof {
                    lemma_tagging_keeps_wf(start, me as int, steering.m_dViewDistance as int);
                }
            }
            result = Self::CalculatePrioritized(agents, me, &none, crosshair, jitter);
        } else if group_on {
            // ask the partition for the neighbours within view range
            let own = agents[me].position;
            cell_space.CalculateNeighbors(agents, own, steering.m_dViewDistance);
            proof {
                let list = cell_space.m_Neighbors@;
                let positions = positions_of(start);
                assert forall|k: int| 0 <= k < list.len() implies list[k] < start.len() by {
                    assert(qualifies(positions, own, steering.m_dViewDistance as int, list[k] as int));
                }
                assert forall|i: int| 0 <= i < start.len() implies #[trigger] listed(
                    list,
                    list.len() as int,
                    me as int,
                )(i) == in_view(start, me as int)(i) by {
                    assert(list.take(list.len() as int) =~= list);
                    assert(list.contains(i as usize) == qualifies(
                        positions,
                        own,
                        steering.m_dViewDistance as int,
                        i,
                    ));
                }
                lemma_prioritized_ext(
                    start,
                    me as int,
                    listed(list, list.len() as int, me as int),
                    in_view(start, me as int),
                    crosshair,
                    jitter,
                );
            }
            result = Self::CalculatePrioritized(agents, me, &cell_space.m_Neighbors, crosshair, jitter);
        } else {
            proof {
                lemma_prioritized_without_group(
                    start,
                    me as int,
                    listed(none@, 0, me as int),
                    in_view(start, me as int),
                    crosshair,
                    jitter,
                );
            }
            result = Self::CalculatePrioritized(agents, me, &none, crosshair, jitter);
        }
        agents[me].m_pSteering.m_vSteeringForce = result.0;
        agents[me].m_pSteering.m_vWanderTarget = result.1;
        Ok(result.0)
    }
}

} // verus!
