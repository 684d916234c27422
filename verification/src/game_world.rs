//! The world: the population of vehicles, the spatial partition over them,
//! and the update of the whole population by one time step.
use vstd::prelude::*;
use crate::fixed::{SCALE, COORD_MAX};
use crate::configuration::{ConfigLoader, POPULATION_MAX, TIME_STEP_MAX};
use crate::vec2::{Vec2, lemma_within_fits};
use crate::smoother::{Smoother, fed};
use crate::steering_behavior::{SteeringBehavior, SteeringError, SummingMethod, population_wf,
    is_population_wf, WANDER_RAD};
use crate::vehicle::{Vehicle, updated_population, lemma_update_frame};
use crate::entity_traits::positions_of;
use crate::entity_functions::{TagNeighbors, tagged_population};
use crate::cell_space_partition::{CellSpacePartition, lemma_add_entity_tracks,
    lemma_update_entity_tracks, lemma_same_cells_tracks};
use crate::utils::{RandomClamped, random_direction, wrap_coordinate, lemma_scale_fits};
use crate::fixed::{mul_fixed, magnitude, lemma_trunc_div_bounds, lemma_product_magnitude};
use crate::vec2::lemma_rescale_within;

verus! {

/// Where a vehicle starts out.
#[derive(Debug, Clone, Copy)]
pub struct Spawn {
    pub position: Vec2,
    pub heading: Vec2,
    /// The vehicle's first wander target, a point within the wander circle.
    pub wander_target: Vec2,
}

impl Spawn {
    /// The position lies in a world of `cx` by `cy` units, the heading is no
    /// longer than one unit and the wander target lies within the wander circle.
    pub open spec fn valid(&self, cx: int, cy: int) -> bool {
        &&& 0 <= self.position.x < cx * SCALE
        &&& 0 <= self.position.y < cy * SCALE
        &&& self.heading.within(SCALE as int)
        &&& self.wander_target.within(WANDER_RAD as int)
    }
}

impl Spawn {
    /// Whether the spawn is valid in a world of `cx` by `cy` units.
    pub fn is_valid(&self, cx: i32, cy: i32) -> (ok: bool)
        requires
            cx >= 1,
            cy >= 1,
        ensures
            ok == self.valid(cx as int, cy as int),
    {
        let width: i64 = (cx as i64) * SCALE;
        let height: i64 = (cy as i64) * SCALE;
        0 <= self.position.x && self.position.x < width && 0 <= self.position.y && self.position.y
            < height && self.heading.is_within(SCALE) && self.wander_target.is_within(WANDER_RAD)
    }
}

/// The world of the simulation.
#[derive(Debug)]
pub struct GameWorld {
    /// All the moving entities; a vehicle's index is its identifier.
    pub m_Vehicles: Vec<Vehicle>,
    /// The history behind each vehicle's smoothed heading.
    pub m_HeadingSmoothers: Vec<Smoother<Vec2>>,
    /// Whether neighbours come from the spatial partition.
    pub m_bCellSpaceOn: bool,
    pub m_pCellSpace: CellSpacePartition,
    /// Set true to pause the motion.
    pub m_bPaused: bool,
    /// The size of the world, in whole units.
    pub m_cxClient: i32,
    pub m_cyClient: i32,
    /// The position of the crosshair, the focal point of some behaviours.
    pub m_vCrosshair: Vec2,
    /// The time step of the latest update.
    pub m_dAvFrameTime: i64,
}

/// Why the steering of a vehicle cannot be computed, if anything.
pub open spec fn steering_error(steering: SteeringBehavior) -> Option<SteeringError> {
    if steering.m_SummingMethod != SummingMethod::prioritized {
        Some(SteeringError::SummingMethodNotImplemented)
    } else if !steering.only_supported() {
        Some(SteeringError::BehaviorNotImplemented)
    } else {
        None
    }
}

/// The error of the first of the first `count` vehicles whose steering
/// cannot be computed, if there is one.
pub open spec fn first_error(agents: Seq<Vehicle>, count: int) -> Option<SteeringError>
    decreases count,
{
    if count <= 0 {
        None
    } else {
        match first_error(agents, count - 1) {
            Some(e) => Some(e),
            None => steering_error(agents[count - 1].m_pSteering),
        }
    }
}

/// The population after its first `count` agents have been updated, one
/// after the other in population order, each seeing its predecessors where
/// they have moved to. `histories` and `slots` are the states of the heading
/// smoothers before the update.
pub open spec fn world_after(
    agents: Seq<Vehicle>,
    count: int,
    dt: int,
    crosshair: Vec2,
    cx: int,
    cy: int,
    jitters: Seq<Vec2>,
    histories: Seq<Seq<Vec2>>,
    slots: Seq<int>,
) -> Seq<Vehicle>
    decreases count,
{
    if count <= 0 {
        agents
    } else {
        updated_population(
            world_after(agents, count - 1, dt, crosshair, cx, cy, jitters, histories, slots),
            count - 1,
            dt,
            crosshair,
            cx,
            cy,
            jitters[count - 1],
            histories[count - 1],
            slots[count - 1],
        )
    }
}

/// The vehicle that a world of the given configuration makes of a spawn:
/// at rest, with the flocking behaviours on.
pub open spec fn seeded_vehicle(index: int, spawn: Spawn, config: ConfigLoader) -> Vehicle {
    Vehicle {
        id: index as i32,
        entity_type: 0,
        tag: false,
        position: spawn.position,
        scale: Vec2 { x: config.Scale, y: config.Scale },
        bounding_radius: 0,
        velocity: Vec2 { x: 0, y: 0 },
        heading: spawn.heading,
        side_vec: spawn.heading.perp_spec(),
        mass: config.VehicleMass,
        max_speed: config.MaxSpeed,
        max_force: config.MaxSteeringForce,
        max_turn_rate: config.MaxTurnRatePerSecond,
        m_pSteering: SteeringBehavior {
            m_iFlags: 0xF0,
            m_bCellSpaceOn: true,
            ..SteeringBehavior::initial(config, spawn.wander_target)
        },
        m_vSmoothedHeading: Vec2 { x: 0, y: 0 },
        m_bSmoothingOn: true,
        m_dTimeElapsed: 0,
    }
}

impl GameWorld {
    /// The histories of the heading smoothers.
    pub open spec fn histories(&self) -> Seq<Seq<Vec2>> {
        Seq::new(self.m_HeadingSmoothers@.len(), |i: int| self.m_HeadingSmoothers@[i].m_History@)
    }

    /// The write cursors of the heading smoothers.
    pub open spec fn slots(&self) -> Seq<int> {
        Seq::new(
            self.m_HeadingSmoothers@.len(),
            |i: int| self.m_HeadingSmoothers@[i].m_iNextUpdateSlot as int,
        )
    }

    /// The world's invariant: the vehicles are well-formed and stand inside
    /// the world, each has its index as identifier and its smoother, the
    /// partition covers the world and, while it is in use, holds every vehicle
    /// in the cell of its position, and the vehicles' partition flags agree
    /// with the world's.
    pub open spec fn wf(&self) -> bool {
        &&& self.m_cxClient >= 1
        &&& self.m_cyClient >= 1
        &&& population_wf(self.m_Vehicles@)
        &&& self.m_HeadingSmoothers@.len() == self.m_Vehicles@.len()
        &&& forall|i: int|
            0 <= i < self.m_HeadingSmoothers@.len() ==> (#[trigger] self.m_HeadingSmoothers@[i]).wf()
        &&& forall|i: int|
            0 <= i < self.m_Vehicles@.len() ==> {
                let v = #[trigger] self.m_Vehicles@[i];
                &&& v.id == i
                &&& 0 <= v.position.x < self.m_cxClient * SCALE
                &&& 0 <= v.position.y < self.m_cyClient * SCALE
                &&& v.m_pSteering.m_bCellSpaceOn == self.m_bCellSpaceOn
            }
        &&& self.m_pCellSpace.wf()
        &&& self.m_pCellSpace.m_dSpaceWidth == self.m_cxClient * SCALE
        &&& self.m_pCellSpace.m_dSpaceHeight == self.m_cyClient * SCALE
        &&& self.m_bCellSpaceOn ==> self.m_pCellSpace.tracks(
            positions_of(self.m_Vehicles@),
            self.m_Vehicles@.len() as int,
        )
        &&& self.m_vCrosshair.fits(COORD_MAX as int)
    }

    /// Whether the world's invariant holds.
    pub fn is_wf(&self) -> (ok: bool)
        ensures
            ok == self.wf(),
    {
        if !(self.m_cxClient >= 1 && self.m_cyClient >= 1) {
            return false;
        }
        if !is_population_wf(&self.m_Vehicles) {
            return false;
        }
        let n = self.m_Vehicles.len();
        if self.m_HeadingSmoothers.len() != n {
            return false;
        }
        let width: i64 = (self.m_cxClient as i64) * SCALE;
        let height: i64 = (self.m_cyClient as i64) * SCALE;
        let mut i: usize = 0;
        while i < n
            invariant
                0 <= i <= n,
                n == self.m_Vehicles@.len(),
                n == self.m_HeadingSmoothers@.len(),
                n <= POPULATION_MAX,
                width == self.m_cxClient * SCALE,
                height == self.m_cyClient * SCALE,
                forall|k: int| 0 <= k < i ==> (#[trigger] self.m_HeadingSmoothers@[k]).wf(),
                forall|k: int|
                    0 <= k < i ==> {
                        let v = #[trigger] self.m_Vehicles@[k];
                        &&& v.id == k
                        &&& 0 <= v.position.x < self.m_cxClient * SCALE
                        &&& 0 <= v.position.y < self.m_cyClient * SCALE
                        &&& v.m_pSteering.m_bCellSpaceOn == self.m_bCellSpaceOn
                    },
            decreases n - i,
        {
            if !self.m_HeadingSmoothers[i].is_wf() {
                return false;
            }
            let v = &self.m_Vehicles[i];
            if !(v.id == i as i32 && 0 <= v.position.x && v.position.x < width && 0 <= v.position.y
                && v.position.y < height && v.m_pSteering.m_bCellSpaceOn == self.m_bCellSpaceOn) {
                return false;
            }
            i = i + 1;
        }
        if !self.m_pCellSpace.is_wf() {
            return false;
        }
        if !(self.m_pCellSpace.m_dSpaceWidth == width && self.m_pCellSpace.m_dSpaceHeight == height) {
            return false;
        }
        if self.m_bCellSpaceOn && !self.m_pCellSpace.is_tracking(&self.m_Vehicles) {
            return false;
        }
        self.m_vCrosshair.is_fitting(COORD_MAX)
    }

    /// The width of the world in whole units.
    pub fn cxClient(&self) -> (cx: i32)
        ensures
            cx == self.m_cxClient,
    {
        self.m_cxClient
    }

    /// The height of the world in whole units.
    pub fn cyClient(&self) -> (cy: i32)
        ensures
            cy == self.m_cyClient,
    {
        self.m_cyClient
    }

    /// Refreshes the tags of the population for vehicle `me`: tags the
    /// vehicles within `range` of it and clears all other tags.
    pub fn TagVehiclesWithinViewRange(&mut self, me: usize, range: i64)
        requires
            old(self).wf(),
            me < old(self).m_Vehicles@.len(),
        ensures
            final(self).wf(),
            final(self).m_Vehicles@ == tagged_population(
                old(self).m_Vehicles@,
                me as int,
                range as int,
            ),
            final(self).m_HeadingSmoothers == old(self).m_HeadingSmoothers,
            final(self).m_pCellSpace == old(self).m_pCellSpace,
            final(self).m_bCellSpaceOn == old(self).m_bCellSpaceOn,
            final(self).m_cxClient == old(self).m_cxClient,
            final(self).m_cyClient == old(self).m_cyClient,
            final(self).m_vCrosshair == old(self).m_vCrosshair,
    {
        TagNeighbors(&mut self.m_Vehicles, me, range);
        proof {
            crate::steering_behavior::lemma_tagging_keeps_wf(
                old(self).m_Vehicles@,
                me as int,
                range as int,
            );
            assert forall|i: int| 0 <= i < self.m_Vehicles@.len() implies {
                let v = #[trigger] self.m_Vehicles@[i];
                &&& v.id == i
                &&& 0 <= v.position.x < self.m_cxClient * SCALE
                &&& 0 <= v.position.y < self.m_cyClient * SCALE
                &&& v.m_pSteering.m_bCellSpaceOn == self.m_bCellSpaceOn
            } by {}
        }
    }
}

/// The vehicle with the partition flag of its steering set to `on`.
pub open spec fn with_partition_flag(v: Vehicle, on: bool) -> Vehicle {
    Vehicle { m_pSteering: SteeringBehavior { m_bCellSpaceOn: on, ..v.m_pSteering }, ..v }
}

/// An empty grid tracks the first zero entities of any population.
pub proof fn lemma_empty_tracks(grid: &CellSpacePartition, positions: Seq<Vec2>)
    requires
        grid.is_empty(),
    ensures
        grid.tracks(positions, 0),
{
}

impl GameWorld {
    /// Switches between the spatial partition and the tagging of neighbours,
    /// for the world and for every vehicle. When the partition comes into
    /// use it is rebuilt from the vehicles' positions.
    pub fn ToggleSpacePartition(&mut self)
        requires
            old(self).wf(),
        ensures
            final(self).wf(),
            final(self).m_bCellSpaceOn == !old(self).m_bCellSpaceOn,
            final(self).m_Vehicles@.len() == old(self).m_Vehicles@.len(),
            forall|i: int|
                0 <= i < old(self).m_Vehicles@.len() ==> #[trigger] final(self).m_Vehicles@[i]
                    == with_partition_flag(old(self).m_Vehicles@[i], !old(self).m_bCellSpaceOn),
            final(self).m_HeadingSmoothers == old(self).m_HeadingSmoothers,
            final(self).m_pCellSpace.same_grid(&old(self).m_pCellSpace),
            final(self).m_cxClient == old(self).m_cxClient,
            final(self).m_cyClient == old(self).m_cyClient,
            final(self).m_vCrosshair == old(self).m_vCrosshair,
            final(self).m_bPaused == old(self).m_bPaused,
            final(self).m_dAvFrameTime == old(self).m_dAvFrameTime,
    {
        let on = !self.m_bCellSpaceOn;
        self.m_bCellSpaceOn = on;
        let n = self.m_Vehicles.len();
        let mut i: usize = 0;
        while i < n
            invariant
                0 <= i <= n,
                n == self.m_Vehicles@.len(),
                n == old(self).m_Vehicles@.len(),
                old(self).wf(),
                on == !old(self).m_bCellSpaceOn,
                self.m_bCellSpaceOn == on,
                self.m_HeadingSmoothers == old(self).m_HeadingSmoothers,
                self.m_pCellSpace == old(self).m_pCellSpace,
                self.m_cxClient == old(self).m_cxClient,
                self.m_cyClient == old(self).m_cyClient,
                self.m_vCrosshair == old(self).m_vCrosshair,
                self.m_bPaused == old(self).m_bPaused,
                self.m_dAvFrameTime == old(self).m_dAvFrameTime,
                forall|j: int|
                    0 <= j < i ==> #[trigger] self.m_Vehicles@[j] == with_partition_flag(
                        old(self).m_Vehicles@[j],
                        on,
                    ),
                forall|j: int| i <= j < n ==> #[trigger] self.m_Vehicles@[j] == old(self).m_Vehicles@[j],
            decreases n - i,
        {
            self.m_Vehicles[i].m_pSteering.m_bCellSpaceOn = on;
            i = i + 1;
        }
        let ghost positions = positions_of(self.m_Vehicles@);
        proof {
            assert forall|j: int| 0 <= j < n implies {
                let v = #[trigger] self.m_Vehicles@[j];
                &&& v.id == j
                &&& 0 <= v.position.x < self.m_cxClient * SCALE
                &&& 0 <= v.position.y < self.m_cyClient * SCALE
                &&& v.m_pSteering.m_bCellSpaceOn == self.m_bCellSpaceOn
            } by {}
        }
        if on {
            self.m_pCellSpace.EmptyCells();
            proof {
                lemma_empty_tracks(&self.m_pCellSpace, positions);
            }
            let mut k: usize = 0;
            while k < n
                invariant
                    0 <= k <= n,
                    n == self.m_Vehicles@.len(),
                    positions == positions_of(self.m_Vehicles@),
                    self.m_pCellSpace.wf(),
                    self.m_pCellSpace.same_grid(&old(self).m_pCellSpace),
                    self.m_pCellSpace.tracks(positions, k as int),
                    self.m_bCellSpaceOn == on,
                    self.m_HeadingSmoothers == old(self).m_HeadingSmoothers,
                    self.m_cxClient == old(self).m_cxClient,
                    self.m_cyClient == old(self).m_cyClient,
                    self.m_vCrosshair == old(self).m_vCrosshair,
                    self.m_bPaused == old(self).m_bPaused,
                    self.m_dAvFrameTime == old(self).m_dAvFrameTime,
                    forall|j: int|
                        0 <= j < n ==> #[trigger] self.m_Vehicles@[j] == with_partition_flag(
                            old(self).m_Vehicles@[j],
                            on,
                        ),
                decreases n - k,
            {
                let position = self.m_Vehicles[k].position;
                let ghost before = self.m_pCellSpace;
                self.m_pCellSpace.add_entity(k, position);
                proof {
                    lemma_add_entity_tracks(&before, &self.m_pCellSpace, positions, k);
                }
                k = k + 1;
            }
        }
    }

    /// A world of `cx` by `cy` units with one vehicle for each spawn, at rest
    /// at the spawn's position and heading, with the flocking behaviours on
    /// and the spatial partition filled and in use.
    pub fn seeded(cx: i32, cy: i32, config: &ConfigLoader, spawns: &Vec<Spawn>) -> (w: GameWorld)
        requires
            cx >= 1,
            cy >= 1,
            config.valid(),
            spawns@.len() <= POPULATION_MAX,
            forall|i: int| 0 <= i < spawns@.len() ==> (#[trigger] spawns@[i]).valid(cx as int, cy as int),
        ensures
            w.wf(),
            w.m_bCellSpaceOn,
            w.m_cxClient == cx,
            w.m_cyClient == cy,
            w.m_vCrosshair == (Vec2 { x: (cx * (SCALE / 2)) as i64, y: (cy * (SCALE / 2)) as i64 }),
            w.m_Vehicles@.len() == spawns@.len(),
            forall|i: int|
                0 <= i < spawns@.len() ==> #[trigger] w.m_Vehicles@[i] == seeded_vehicle(
                    i,
                    spawns@[i],
                    *config,
                ),
            forall|i: int|
                0 <= i < spawns@.len() ==> (#[trigger] w.m_HeadingSmoothers@[i]).m_History@
                    == Seq::new(config.NumSamplesForSmoothing as nat, |k: int| Vec2 { x: 0, y: 0 })
                    && w.m_HeadingSmoothers@[i].m_iNextUpdateSlot == 0,
            w.m_pCellSpace.m_iNumCellsX == config.NumCellsX,
            w.m_pCellSpace.m_iNumCellsY == config.NumCellsY,
    {
        let width: i64 = (cx as i64) * SCALE;
        let height: i64 = (cy as i64) * SCALE;
        let cell_space = CellSpacePartition::new(
            width,
            height,
            config.NumCellsX,
            config.NumCellsY,
            config.NumAgents,
        );
        let mut world = GameWorld {
            m_Vehicles: Vec::new(),
            m_HeadingSmoothers: Vec::new(),
            m_bCellSpaceOn: false,
            m_pCellSpace: cell_space,
            m_bPaused: false,
            m_cxClient: cx,
            m_cyClient: cy,
            m_vCrosshair: Vec2 { x: (cx as i64) * (SCALE / 2), y: (cy as i64) * (SCALE / 2) },
            m_dAvFrameTime: 0,
        };
        let n = spawns.len();
        let mut i: usize = 0;
        while i < n
            invariant
                0 <= i <= n,
                n == spawns@.len(),
                n <= POPULATION_MAX,
                cx >= 1,
                cy >= 1,
                config.valid(),
                forall|j: int|
                    0 <= j < spawns@.len() ==> (#[trigger] spawns@[j]).valid(cx as int, cy as int),
                world.m_Vehicles@.len() == i,
                world.m_HeadingSmoothers@.len() == i,
                !world.m_bCellSpaceOn,
                world.m_cxClient == cx,
                world.m_cyClient == cy,
                world.m_vCrosshair == (Vec2 {
                    x: (cx * (SCALE / 2)) as i64,
                    y: (cy * (SCALE / 2)) as i64,
                }),
                world.m_pCellSpace.wf(),
                world.m_pCellSpace.m_dSpaceWidth == cx * SCALE,
                world.m_pCellSpace.m_dSpaceHeight == cy * SCALE,
                world.m_pCellSpace.m_iNumCellsX == config.NumCellsX,
                world.m_pCellSpace.m_iNumCellsY == config.NumCellsY,
                forall|j: int|
                    0 <= j < i ==> #[trigger] world.m_Vehicles@[j] == with_partition_flag(
                        seeded_vehicle(j, spawns@[j], *config),
                        false,
                    ),
                forall|j: int| 0 <= j < i ==> (#[trigger] world.m_Vehicles@[j]).wf(),
                forall|j: int|
                    0 <= j < i ==> (#[trigger] world.m_HeadingSmoothers@[j]).wf()
                        && world.m_HeadingSmoothers@[j].m_History@ == Seq::new(
                        config.NumSamplesForSmoothing as nat,
                        |k: int| Vec2 { x: 0, y: 0 },
                    ) && world.m_HeadingSmoothers@[j].m_iNextUpdateSlot == 0,
            decreases n - i,
        {
            let spawn = spawns[i];
            let mut steering = SteeringBehavior::from_config(config, spawn.wander_target);
            steering.FlockingOn();
            proof {
                let f = steering.m_iFlags;
                assert(f == 0xF0) by (bit_vector)
                    requires
                        f == 0u32 | 0xF0,
                ;
                assert(cx * SCALE <= 0x7FFF_FFFF * SCALE && cy * SCALE <= 0x7FFF_FFFF * SCALE)
                    by (nonlinear_arith)
                    requires
                        cx <= 0x7FFF_FFFF,
                        cy <= 0x7FFF_FFFF,
                        SCALE == 1000,
                ;
                let zero = Vec2 { x: 0, y: 0 };
                assert(zero.within(config.MaxSpeed as int)) by (nonlinear_arith)
                    requires
                        zero.x == 0,
                        zero.y == 0,
                        config.MaxSpeed >= 0,
                        zero.within(config.MaxSpeed as int) == (zero.x * zero.x + zero.y * zero.y
                            <= config.MaxSpeed * config.MaxSpeed),
                ;
            }
            let vehicle = Vehicle::new(
                i as i32,
                spawn.position,
                spawn.heading,
                Vec2 { x: 0, y: 0 },
                config.VehicleMass,
                config.MaxSteeringForce,
                config.MaxSpeed,
                config.MaxTurnRatePerSecond,
                config.Scale,
                steering,
            );
            world.m_Vehicles.push(vehicle);
            world.m_HeadingSmoothers.push(
                Smoother::new(config.NumSamplesForSmoothing, Vec2 { x: 0, y: 0 }),
            );
            world.m_pCellSpace.add_entity(i, spawn.position);
            i = i + 1;
        }
        proof {
            assert forall|j: int| 0 <= j < world.m_Vehicles@.len() implies ((
            #[trigger] world.m_Vehicles@[j]).m_pSteering.m_pTargetAgent1 matches Some(t) ==> t
                < world.m_Vehicles@.len()) by {
                assert(world.m_Vehicles@[j] == with_partition_flag(
                    seeded_vehicle(j, spawns@[j], *config),
                    false,
                ));
            }
            assert forall|j: int| 0 <= j < world.m_Vehicles@.len() implies {
                let v = #[trigger] world.m_Vehicles@[j];
                &&& v.id == j
                &&& 0 <= v.position.x < world.m_cxClient * SCALE
                &&& 0 <= v.position.y < world.m_cyClient * SCALE
                &&& v.m_pSteering.m_bCellSpaceOn == world.m_bCellSpaceOn
            } by {
                assert(world.m_Vehicles@[j] == with_partition_flag(
                    seeded_vehicle(j, spawns@[j], *config),
                    false,
                ));
            }
            assert(world.m_vCrosshair.fits(COORD_MAX as int)) by {
                assert(cx * (SCALE / 2) <= 0x7FFF_FFFF * 500 && cy * (SCALE / 2) <= 0x7FFF_FFFF
                    * 500) by (nonlinear_arith)
                    requires
                        0 <= cx <= 0x7FFF_FFFF,
                        0 <= cy <= 0x7FFF_FFFF,
                        SCALE == 1000,
                ;
            }
        }
        world.ToggleSpacePartition();
        world
    }
}

/// The smoother `now` is the smoother `before` after the heading of
/// `vehicle` has been fed into it once, or `before` itself if the vehicle
/// does not smooth its heading.
pub open spec fn smoothed_since(now: Smoother<Vec2>, before: Smoother<Vec2>, vehicle: Vehicle) -> bool {
    if vehicle.m_bSmoothingOn {
        (now.m_History@, now.m_iNextUpdateSlot as int) == fed(
            before.m_History@,
            before.m_iNextUpdateSlot as int,
            vehicle.heading,
            1,
        )
    } else {
        now == before
    }
}

/// The vehicle's steering force is within its force budget and its velocity
/// within its speed limit.
pub open spec fn within_limits(v: Vehicle) -> bool {
    v.m_pSteering.m_vSteeringForce.within(v.max_force as int) && v.velocity.within(
        v.max_speed as int,
    )
}

/// The time step that an update takes: the time given, or zero if that is negative.
pub open spec fn time_step(time_elapsed: int) -> int {
    if time_elapsed < 0 {
        0
    } else {
        time_elapsed
    }
}

/// Once one of the first vehicles has an error, it stays the first error
/// however many more vehicles are looked at.
pub proof fn lemma_first_error_stays(agents: Seq<Vehicle>, found: int, count: int)
    requires
        0 <= found < count,
        first_error(agents, found) is None,
        steering_error(agents[found].m_pSteering) is Some,
    ensures
        first_error(agents, count) == steering_error(agents[found].m_pSteering),
    decreases count,
{
    if count > found + 1 {
        lemma_first_error_stays(agents, found, count - 1);
    }
}

/// A random coordinate in a world that is `size` units wide: the middle
/// plus a random share of half the width, wrapped into the world.
fn random_coordinate(size: i32) -> (x: i64)
    requires
        size >= 1,
    ensures
        0 <= x < size * SCALE,
        exists|share: int|
            -SCALE <= share <= SCALE && x == #[trigger] coordinate_of_share(size as int, share),
{
    let share = RandomClamped();
    let x = coordinate_from_share(size, share);
    assert(x == coordinate_of_share(size as int, share as int));
    x
}

/// The coordinate that lies the share `share` of half the width from the
/// middle of a world `size` units wide, wrapped into the world.
pub open spec fn coordinate_of_share(size: int, share: int) -> int {
    crate::utils::wrap_spec(
        size * (SCALE / 2) + crate::fixed::fx_mul(share, size * (SCALE / 2)),
        size * SCALE,
    )
}

/// The coordinate that lies the share `share`, from minus one to one, of
/// half the width from the middle of a world `size` units wide: the left
/// edge for minus one, the middle for zero; the right edge, for one, wraps
/// around to the left edge.
pub fn coordinate_from_share(size: i32, share: i64) -> (x: i64)
    requires
        size >= 1,
        -SCALE <= share <= SCALE,
    ensures
        x == coordinate_of_share(size as int, share as int),
        0 <= x < size * SCALE,
{
    let half: i64 = (size as i64) * (SCALE / 2);
    proof {
        assert(magnitude(share as int) * magnitude(half as int) <= SCALE * (0x7FFF_FFFF * 500))
            by (nonlinear_arith)
            requires
                0 <= magnitude(share as int) <= SCALE,
                0 <= magnitude(half as int) <= 0x7FFF_FFFF * 500,
        ;
        lemma_product_magnitude(share as int, half as int);
        lemma_trunc_div_bounds(share * half, SCALE as int);
    }
    wrap_coordinate(half + mul_fixed(share, half), (size as i64) * SCALE)
}

impl GameWorld {
    /// A world of `cx` by `cy` units with `config.NumAgents` vehicles at
    /// random positions and with random headings, at rest, with the flocking
    /// behaviours on and the spatial partition filled and in use.
    pub fn new(cx: i32, cy: i32, config: &ConfigLoader) -> (w: GameWorld)
        requires
            cx >= 1,
            cy >= 1,
            config.valid(),
        ensures
            w.wf(),
            w.m_bCellSpaceOn,
            w.m_cxClient == cx,
            w.m_cyClient == cy,
            w.m_Vehicles@.len() == config.NumAgents,
            exists|spawns: Seq<Spawn>|
                spawns.len() == config.NumAgents && forall|i: int|
                    0 <= i < spawns.len() ==> (#[trigger] spawns[i]).valid(cx as int, cy as int)
                        && w.m_Vehicles@[i] == seeded_vehicle(i, spawns[i], *config),
    {
        let mut spawns: Vec<Spawn> = Vec::new();
        let mut i: i32 = 0;
        while i < config.NumAgents
            invariant
                0 <= i <= config.NumAgents,
                cx >= 1,
                cy >= 1,
                spawns@.len() == i,
                forall|j: int| 0 <= j < i ==> (#[trigger] spawns@[j]).valid(cx as int, cy as int),
            decreases config.NumAgents - i,
        {
            let direction = random_direction();
            proof {
                lemma_within_fits(direction, SCALE as int);
                lemma_scale_fits(direction, WANDER_RAD as int);
                lemma_rescale_within(
                    direction.x as int,
                    direction.y as int,
                    SCALE as int,
                    WANDER_RAD as int,
                );
            }
            spawns.push(
                Spawn {
                    position: Vec2 { x: random_coordinate(cx), y: random_coordinate(cy) },
                    heading: random_direction(),
                    wander_target: direction.scale(WANDER_RAD),
                },
            );
            i = i + 1;
        }
        let w = Self::seeded(cx, cy, config, &spawns);
        proof {
            let all = spawns@;
            assert(all.len() == config.NumAgents && forall|i: int|
                0 <= i < all.len() ==> (#[trigger] all[i]).valid(cx as int, cy as int)
                    && w.m_Vehicles@[i] == seeded_vehicle(i, all[i], *config));
        }
        w
    }

    /// Updates vehicle `i` by the time step `dt` and moves it to its new
    /// cell where the spatial partition is in use.
    fn update_vehicle(&mut self, i: usize, dt: i64, jitter: Vec2)
        requires
            old(self).wf(),
            i < old(self).m_Vehicles@.len(),
            0 <= dt <= TIME_STEP_MAX,
            jitter.fits(SCALE as int),
            steering_error(old(self).m_Vehicles@[i as int].m_pSteering) is None,
        ensures
            final(self).wf(),
            final(self).m_Vehicles@ == updated_population(
                old(self).m_Vehicles@,
                i as int,
                dt as int,
                old(self).m_vCrosshair,
                old(self).m_cxClient as int,
                old(self).m_cyClient as int,
                jitter,
                old(self).m_HeadingSmoothers@[i as int].m_History@,
                old(self).m_HeadingSmoothers@[i as int].m_iNextUpdateSlot as int,
            ),
            final(self).m_HeadingSmoothers@.len() == old(self).m_HeadingSmoothers@.len(),
            forall|k: int|
                0 <= k < old(self).m_HeadingSmoothers@.len() && k != i
                    ==> #[trigger] final(self).m_HeadingSmoothers@[k] == old(self).m_HeadingSmoothers@[k],
            final(self).m_Vehicles@[i as int].m_bSmoothingOn ==> (
                final(self).m_HeadingSmoothers@[i as int].m_History@,
                final(self).m_HeadingSmoothers@[i as int].m_iNextUpdateSlot as int,
            ) == fed(
                old(self).m_HeadingSmoothers@[i as int].m_History@,
                old(self).m_HeadingSmoothers@[i as int].m_iNextUpdateSlot as int,
                final(self).m_Vehicles@[i as int].heading,
                1,
            ),
            !final(self).m_Vehicles@[i as int].m_bSmoothingOn ==> final(self).m_HeadingSmoothers@[i as int] == old(self).m_HeadingSmoothers@[i as int],
            final(self).m_Vehicles@[i as int].m_pSteering.m_vSteeringForce.within(
                final(self).m_Vehicles@[i as int].max_force as int,
            ),
            final(self).m_dAvFrameTime == old(self).m_dAvFrameTime,
            final(self).m_bCellSpaceOn == old(self).m_bCellSpaceOn,
            final(self).m_bPaused == old(self).m_bPaused,
            final(self).m_cxClient == old(self).m_cxClient,
            final(self).m_cyClient == old(self).m_cyClient,
            final(self).m_vCrosshair == old(self).m_vCrosshair,
            final(self).m_pCellSpace.same_grid(&old(self).m_pCellSpace),
    {
        let cx = self.m_cxClient;
        let cy = self.m_cyClient;
        let crosshair = self.m_vCrosshair;
        let ghost n = self.m_Vehicles@.len() as int;
        let ghost before = self.m_Vehicles@;
        let ghost grid_before = self.m_pCellSpace;
        let ghost smoothers_before = self.m_HeadingSmoothers@;
        let ghost positions = positions_of(before);
        proof {
            lemma_update_frame(
                before,
                i as int,
                dt as int,
                crosshair,
                cx as int,
                cy as int,
                jitter,
                smoothers_before[i as int].m_History@,
                smoothers_before[i as int].m_iNextUpdateSlot as int,
            );
        }
        let outcome = Vehicle::Update(
            &mut self.m_Vehicles,
            i,
            &mut self.m_pCellSpace,
            &mut self.m_HeadingSmoothers[i],
            crosshair,
            cx,
            cy,
            dt,
            jitter,
        );
        let ghost after = self.m_Vehicles@;
        proof {
            assert(outcome is Ok) by {
                if let Err(e) = outcome {
                    match e {
                        SteeringError::SummingMethodNotImplemented => {
                            assert(outcome == Err::<Vec2, SteeringError>(
                                SteeringError::SummingMethodNotImplemented,
                            ));
                        },
                        SteeringError::BehaviorNotImplemented => {
                            assert(outcome == Err::<Vec2, SteeringError>(
                                SteeringError::BehaviorNotImplemented,
                            ));
                        },
                    }
                }
            }
            assert(self.m_HeadingSmoothers@ =~= smoothers_before.update(
                i as int,
                self.m_HeadingSmoothers@[i as int],
            ));
            assert(positions_of(after) =~= positions.update(i as int, after[i as int].position));
            lemma_same_cells_tracks_if(
                &grid_before,
                &self.m_pCellSpace,
                positions,
                n,
                self.m_bCellSpaceOn,
            );
        }
        if self.m_bCellSpaceOn {
            if let Ok(old_position) = outcome {
                let position = self.m_Vehicles[i].position;
                let ghost grid_mid = self.m_pCellSpace;
                self.m_pCellSpace.UpdateEntity(i, position, old_position);
                proof {
                    lemma_update_entity_tracks(
                        &grid_mid,
                        &self.m_pCellSpace,
                        positions,
                        n,
                        i,
                        position,
                    );
                }
            }
        }
        proof {
            assert forall|k: int| 0 <= k < n implies {
                let v = #[trigger] self.m_Vehicles@[k];
                &&& v.id == k
                &&& 0 <= v.position.x < self.m_cxClient * SCALE
                &&& 0 <= v.position.y < self.m_cyClient * SCALE
                &&& v.m_pSteering.m_bCellSpaceOn == self.m_bCellSpaceOn
            } by {}
        }
    }

    /// Updates every vehicle, in population order, by one time step: each
    /// computes its steering force from the population as it stands, moves,
    /// and is moved to its new cell where the spatial partition is in use.
    /// `jitters` holds, for each vehicle, the two random draws of its wander
    /// behaviour. A negative time step counts as zero. Fails, and changes
    /// nothing, if the steering of some vehicle cannot be computed.
    pub fn UpdateWith(&mut self, time_elapsed: i64, jitters: &Vec<Vec2>) -> (r: Result<
        (),
        SteeringError,
    >)
        requires
            old(self).wf(),
            time_elapsed <= TIME_STEP_MAX,
            jitters@.len() == old(self).m_Vehicles@.len(),
            forall|k: int| 0 <= k < jitters@.len() ==> (#[trigger] jitters@[k]).fits(SCALE as int),
        ensures
            final(self).wf(),
            r == (match first_error(old(self).m_Vehicles@, old(self).m_Vehicles@.len() as int) {
                Some(e) => Err::<(), SteeringError>(e),
                None => Ok::<(), SteeringError>(()),
            }),
            r is Err ==> *final(self) == *old(self),
            r is Ok ==> {
                &&& final(self).m_Vehicles@ == world_after(
                    old(self).m_Vehicles@,
                    old(self).m_Vehicles@.len() as int,
                    time_step(time_elapsed as int),
                    old(self).m_vCrosshair,
                    old(self).m_cxClient as int,
                    old(self).m_cyClient as int,
                    jitters@,
                    old(self).histories(),
                    old(self).slots(),
                )
                &&& final(self).m_HeadingSmoothers@.len() == old(self).m_HeadingSmoothers@.len()
                &&& forall|i: int|
                    0 <= i < old(self).m_Vehicles@.len() ==> smoothed_since(
                        #[trigger] final(self).m_HeadingSmoothers@[i],
                        old(self).m_HeadingSmoothers@[i],
                        final(self).m_Vehicles@[i],
                    )
                &&& forall|i: int|
                    0 <= i < old(self).m_Vehicles@.len() ==> within_limits(
                        #[trigger] final(self).m_Vehicles@[i],
                    )
                &&& final(self).m_dAvFrameTime == time_elapsed
            },
            final(self).m_bCellSpaceOn == old(self).m_bCellSpaceOn,
            final(self).m_bPaused == old(self).m_bPaused,
            final(self).m_cxClient == old(self).m_cxClient,
            final(self).m_cyClient == old(self).m_cyClient,
            final(self).m_vCrosshair == old(self).m_vCrosshair,
            final(self).m_Vehicles@.len() == old(self).m_Vehicles@.len(),
            final(self).m_pCellSpace.same_grid(&old(self).m_pCellSpace),
    {
        let n = self.m_Vehicles.len();
        let ghost start = self.m_Vehicles@;
        let mut j: usize = 0;
        while j < n
            invariant
                0 <= j <= n,
                n == self.m_Vehicles@.len(),
                *self == *old(self),
                self.wf(),
                start == self.m_Vehicles@,
                first_error(start, j as int) is None,
                forall|k: int| 0 <= k < j ==> steering_error((#[trigger] start[k]).m_pSteering) is None,
            decreases n - j,
        {
            let steering = &self.m_Vehicles[j].m_pSteering;
            match steering.m_SummingMethod {
                SummingMethod::prioritized => {},
                _ => {
                    proof {
                        lemma_first_error_stays(start, j as int, n as int);
                    }
                    return Err(SteeringError::SummingMethodNotImplemented);
                },
            }
            if steering.m_iFlags & !crate::steering_behavior::SUPPORTED_FLAGS != 0 {
                proof {
                    lemma_first_error_stays(start, j as int, n as int);
                }
                return Err(SteeringError::BehaviorNotImplemented);
            }
            j = j + 1;
        }
        let dt: i64 = if time_elapsed < 0 {
            0
        } else {
            time_elapsed
        };
        self.m_dAvFrameTime = time_elapsed;
        let ghost cx = self.m_cxClient as int;
        let ghost cy = self.m_cyClient as int;
        let ghost crosshair = self.m_vCrosshair;
        let ghost hist0 = old(self).histories();
        let ghost slots0 = old(self).slots();
        let mut i: usize = 0;
        while i < n
            invariant
                0 <= i <= n,
                n == self.m_Vehicles@.len(),
                n == start.len(),
                n == jitters@.len(),
                start == old(self).m_Vehicles@,
                self.wf(),
                0 <= dt <= TIME_STEP_MAX,
                dt == time_step(time_elapsed as int),
                cx == self.m_cxClient,
                cy == self.m_cyClient,
                crosshair == self.m_vCrosshair,
                hist0 == old(self).histories(),
                slots0 == old(self).slots(),
                old(self).m_HeadingSmoothers@.len() == n,
                forall|k: int| 0 <= k < jitters@.len() ==> (#[trigger] jitters@[k]).fits(SCALE as int),
                self.m_dAvFrameTime == time_elapsed,
                self.m_bCellSpaceOn == old(self).m_bCellSpaceOn,
                self.m_bPaused == old(self).m_bPaused,
                self.m_cxClient == old(self).m_cxClient,
                self.m_cyClient == old(self).m_cyClient,
                self.m_vCrosshair == old(self).m_vCrosshair,
                self.m_pCellSpace.same_grid(&old(self).m_pCellSpace),
                self.m_HeadingSmoothers@.len() == n,
                self.m_Vehicles@ == world_after(
                    start,
                    i as int,
                    dt as int,
                    crosshair,
                    cx,
                    cy,
                    jitters@,
                    hist0,
                    slots0,
                ),
                forall|k: int|
                    0 <= k < n ==> steering_error((#[trigger] self.m_Vehicles@[k]).m_pSteering) is None,
                forall|k: int|
                    i <= k < n ==> #[trigger] self.m_HeadingSmoothers@[k] == old(self).m_HeadingSmoothers@[k],
                forall|k: int|
                    0 <= k < i ==> smoothed_since(
                        #[trigger] self.m_HeadingSmoothers@[k],
                        old(self).m_HeadingSmoothers@[k],
                        self.m_Vehicles@[k],
                    ),
                forall|k: int| 0 <= k < i ==> within_limits(#[trigger] self.m_Vehicles@[k]),
            decreases n - i,
        {
            let ghost before = self.m_Vehicles@;
            let ghost smoothers_before = self.m_HeadingSmoothers@;
            proof {
                lemma_update_frame(
                    before,
                    i as int,
                    dt as int,
                    crosshair,
                    cx,
                    cy,
                    jitters@[i as int],
                    hist0[i as int],
                    slots0[i as int],
                );
            }
            self.update_vehicle(i, dt, jitters[i]);
            proof {
                assert forall|k: int| 0 <= k < i + 1 implies smoothed_since(
                    #[trigger] self.m_HeadingSmoothers@[k],
                    old(self).m_HeadingSmoothers@[k],
                    self.m_Vehicles@[k],
                ) by {
                    if k < i {
                        assert(smoothed_since(
                            smoothers_before[k],
                            old(self).m_HeadingSmoothers@[k],
                            before[k],
                        ));
                    }
                }
            }
            i = i + 1;
        }
        Ok(())
    }

    /// Updates every vehicle by one time step, as `UpdateWith` does, with
    /// fresh random draws for the wander behaviour of each vehicle.
    pub fn Update(&mut self, time_elapsed: i64) -> (r: Result<(), SteeringError>)
        requires
            old(self).wf(),
            time_elapsed <= TIME_STEP_MAX,
        ensures
            final(self).wf(),
            r == (match first_error(old(self).m_Vehicles@, old(self).m_Vehicles@.len() as int) {
                Some(e) => Err::<(), SteeringError>(e),
                None => Ok::<(), SteeringError>(()),
            }),
            r is Err ==> *final(self) == *old(self),
            r is Ok ==> exists|jitters: Seq<Vec2>|
                {
                    &&& jitters.len() == old(self).m_Vehicles@.len()
                    &&& forall|k: int| 0 <= k < jitters.len() ==> (#[trigger] jitters[k]).fits(SCALE as int)
                    &&& final(self).m_Vehicles@ == world_after(
                        old(self).m_Vehicles@,
                        old(self).m_Vehicles@.len() as int,
                        time_step(time_elapsed as int),
                        old(self).m_vCrosshair,
                        old(self).m_cxClient as int,
                        old(self).m_cyClient as int,
                        jitters,
                        old(self).histories(),
                        old(self).slots(),
                    )
                },
            r is Ok ==> forall|i: int|
                0 <= i < old(self).m_Vehicles@.len() ==> within_limits(
                    #[trigger] final(self).m_Vehicles@[i],
                ),
            final(self).m_bCellSpaceOn == old(self).m_bCellSpaceOn,
            final(self).m_cxClient == old(self).m_cxClient,
            final(self).m_cyClient == old(self).m_cyClient,
            final(self).m_vCrosshair == old(self).m_vCrosshair,
            final(self).m_Vehicles@.len() == old(self).m_Vehicles@.len(),
    {
        let n = self.m_Vehicles.len();
        let mut jitters: Vec<Vec2> = Vec::new();
        let mut i: usize = 0;
        while i < n
            invariant
                0 <= i <= n,
                jitters@.len() == i,
                forall|k: int| 0 <= k < i ==> (#[trigger] jitters@[k]).fits(SCALE as int),
            decreases n - i,
        {
            jitters.push(Vec2 { x: RandomClamped(), y: RandomClamped() });
            i = i + 1;
        }
        let r = self.UpdateWith(time_elapsed, &jitters);
        proof {
            if r is Ok {
                let drawn = jitters@;
                assert(drawn.len() == old(self).m_Vehicles@.len() && (forall|k: int|
                    0 <= k < drawn.len() ==> (#[trigger] drawn[k]).fits(SCALE as int)));
            }
        }
        r
    }
}

/// A grid whose cells are unchanged keeps tracking a population, if it did.
pub proof fn lemma_same_cells_tracks_if(
    before: &CellSpacePartition,
    after: &CellSpacePartition,
    positions: Seq<Vec2>,
    count: int,
    tracking: bool,
)
    requires
        tracking ==> before.tracks(positions, count),
        after.m_Cells == before.m_Cells,
        after.same_grid(before),
    ensures
        tracking ==> after.tracks(positions, count),
{
    if tracking {
        lemma_same_cells_tracks(before, after, positions, count);
    }
}

} // verus!
