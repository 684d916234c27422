//! The tunable constants of the simulation. Fractional values are fixed-point
//! numbers in thousandths.
use vstd::prelude::*;

verus! {

/// Scales every behaviour weight and the steering force cap.
pub const STEERING_FORCE_TWEAKER: i64 = 200_000;

/// Largest speed, force, mass, radius or distance that an agent may be given.
pub const SCALAR_MAX: i64 = 1_000_000_000;

/// Largest weight that a behaviour may be given.
pub const WEIGHT_MAX: i64 = 10_000_000;

/// Largest population that a world may hold.
pub const POPULATION_MAX: i32 = 1_000_000;

/// Longest time step that one update may cover.
pub const TIME_STEP_MAX: i64 = 1_000_000;

/// The record of constants that the other components are built from.
#[derive(Clone, Copy, Debug)]
pub struct ConfigLoader {
    pub NumAgents: i32,
    pub NumObstacles: i32,
    pub MinObstacleRadius: i64,
    pub MaxObstacleRadius: i64,
    /// Number of horizontal cells of the spatial partition.
    pub NumCellsX: i32,
    /// Number of vertical cells of the spatial partition.
    pub NumCellsY: i32,
    /// How many samples the heading smoother averages.
    pub NumSamplesForSmoothing: i32,
    pub SteeringForceTweaker: i64,
    pub MaxSteeringForce: i64,
    pub MaxSpeed: i64,
    pub VehicleMass: i64,
    pub Scale: i64,
    pub MaxTurnRatePerSecond: i64,
    pub SeparationWeight: i64,
    pub AlignmentWeight: i64,
    pub CohesionWeight: i64,
    pub ObstacleAvoidanceWeight: i64,
    pub WallAvoidanceWeight: i64,
    pub WanderWeight: i64,
    pub SeekWeight: i64,
    pub FleeWeight: i64,
    pub ArriveWeight: i64,
    pub PursuitWeight: i64,
    pub OffsetPursuitWeight: i64,
    pub InterposeWeight: i64,
    pub HideWeight: i64,
    pub EvadeWeight: i64,
    pub FollowPathWeight: i64,
    /// How close a neighbour must be for an agent to perceive it.
    pub ViewDistance: i64,
    /// How close a pursuer must be for an agent to evade it.
    pub ThreatRange: i64,
    pub MinDetectionBoxLength: i64,
    pub WallDetectionFeelerLength: i64,
    pub prWallAvoidance: i64,
    pub prObstacleAvoidance: i64,
    pub prSeparation: i64,
    pub prAlignment: i64,
    pub prCohesion: i64,
    pub prWander: i64,
    pub prSeek: i64,
    pub prFlee: i64,
    pub prEvade: i64,
    pub prHide: i64,
    pub prArrive: i64,
}

/// The configuration that the simulation ships with.
pub open spec fn standard_config() -> ConfigLoader {
    ConfigLoader {
        NumAgents: 250,
        NumObstacles: 7,
        MinObstacleRadius: 10_000,
        MaxObstacleRadius: 30_000,
        NumCellsX: 7,
        NumCellsY: 7,
        NumSamplesForSmoothing: 10,
        SteeringForceTweaker: 200_000,
        MaxSteeringForce: 400_000,
        MaxSpeed: 80_000,
        VehicleMass: 1_000,
        Scale: 20_000,
        MaxTurnRatePerSecond: 3_142,
        SeparationWeight: 200_000,
        AlignmentWeight: 200_000,
        CohesionWeight: 400_000,
        ObstacleAvoidanceWeight: 2_000_000,
        WallAvoidanceWeight: 2_000_000,
        WanderWeight: 200_000,
        SeekWeight: 200_000,
        FleeWeight: 200_000,
        ArriveWeight: 200_000,
        PursuitWeight: 200_000,
        OffsetPursuitWeight: 200_000,
        InterposeWeight: 200_000,
        HideWeight: 200_000,
        EvadeWeight: 200_000,
        FollowPathWeight: 200_000,
        ViewDistance: 50_000,
        ThreatRange: 100_000,
        MinDetectionBoxLength: 40_000,
        WallDetectionFeelerLength: 40_000,
        prWallAvoidance: 500,
        prObstacleAvoidance: 500,
        prSeparation: 200,
        prAlignment: 300,
        prCohesion: 600,
        prWander: 800,
        prSeek: 800,
        prFlee: 600,
        prEvade: 1_000,
        prHide: 800,
        prArrive: 500,
}
}

impl ConfigLoader {
    /// The values lie in the ranges for which the simulation's arithmetic
    /// cannot overflow.
    pub open spec fn valid(&self) -> bool {
        &&& 1 <= self.NumAgents <= POPULATION_MAX
        &&& 1 <= self.NumCellsX
        &&& 1 <= self.NumCellsY
        &&& self.NumCellsX * self.NumCellsY <= i32::MAX
        &&& 1 <= self.NumSamplesForSmoothing
        &&& 0 <= self.MaxSteeringForce <= SCALAR_MAX
        &&& 0 <= self.MaxSpeed <= SCALAR_MAX
        &&& 1 <= self.VehicleMass <= SCALAR_MAX
        &&& 0 <= self.Scale <= SCALAR_MAX
        &&& 0 <= self.SeparationWeight <= WEIGHT_MAX
        &&& 0 <= self.AlignmentWeight <= WEIGHT_MAX
        &&& 0 <= self.CohesionWeight <= WEIGHT_MAX
        &&& 0 <= self.WanderWeight <= WEIGHT_MAX
        &&& 0 <= self.FleeWeight <= WEIGHT_MAX
        &&& 0 <= self.EvadeWeight <= WEIGHT_MAX
        &&& 0 <= self.ViewDistance <= SCALAR_MAX
        &&& 0 <= self.ThreatRange <= SCALAR_MAX
    }

    /// The standard configuration.
    pub fn new() -> (c: Self)
        ensures
            c == standard_config(),
            c.valid(),
    {
        ConfigLoader {
            NumAgents: 250,
            NumObstacles: 7,
            MinObstacleRadius: 10_000,
            MaxObstacleRadius: 30_000,
            NumCellsX: 7,
            NumCellsY: 7,
            NumSamplesForSmoothing: 10,
            SteeringForceTweaker: 200_000,
            MaxSteeringForce: 400_000,
            MaxSpeed: 80_000,
            VehicleMass: 1_000,
            Scale: 20_000,
            MaxTurnRatePerSecond: 3_142,
            SeparationWeight: 200_000,
            AlignmentWeight: 200_000,
            CohesionWeight: 400_000,
            ObstacleAvoidanceWeight: 2_000_000,
            WallAvoidanceWeight: 2_000_000,
            WanderWeight: 200_000,
            SeekWeight: 200_000,
            FleeWeight: 200_000,
            ArriveWeight: 200_000,
            PursuitWeight: 200_000,
            OffsetPursuitWeight: 200_000,
            InterposeWeight: 200_000,
            HideWeight: 200_000,
            EvadeWeight: 200_000,
            FollowPathWeight: 200_000,
            ViewDistance: 50_000,
            ThreatRange: 100_000,
            MinDetectionBoxLength: 40_000,
            WallDetectionFeelerLength: 40_000,
            prWallAvoidance: 500,
            prObstacleAvoidance: 500,
            prSeparation: 200,
            prAlignment: 300,
            prCohesion: 600,
            prWander: 800,
            prSeek: 800,
            prFlee: 600,
            prEvade: 1_000,
            prHide: 800,
            prArrive: 500,
}
    }

    /// Whether the values lie in the ranges that the simulation accepts.
    pub fn is_valid(&self) -> (ok: bool)
        ensures
            ok == self.valid(),
    {
        if !(1 <= self.NumCellsX && 1 <= self.NumCellsY) {
            return false;
        }
        if !grid_fits(self.NumCellsX, self.NumCellsY) {
            return false;
        }
        1 <= self.NumAgents && self.NumAgents <= POPULATION_MAX && 1
            <= self.NumSamplesForSmoothing && is_between(self.MaxSteeringForce, 0, SCALAR_MAX)
            && is_between(self.MaxSpeed, 0, SCALAR_MAX) && is_between(self.VehicleMass, 1, SCALAR_MAX)
            && is_between(self.Scale, 0, SCALAR_MAX) && is_between(self.SeparationWeight, 0, WEIGHT_MAX)
            && is_between(self.AlignmentWeight, 0, WEIGHT_MAX) && is_between(
            self.CohesionWeight,
            0,
            WEIGHT_MAX,
        ) && is_between(self.WanderWeight, 0, WEIGHT_MAX) && is_between(self.FleeWeight, 0, WEIGHT_MAX)
            && is_between(self.EvadeWeight, 0, WEIGHT_MAX) && is_between(
            self.ViewDistance,
            0,
            SCALAR_MAX,
        ) && is_between(self.ThreatRange, 0, SCALAR_MAX)
    }
}

/// Whether `low <= value <= high`.
pub fn is_between(value: i64, low: i64, high: i64) -> (ok: bool)
    ensures
        ok == (low <= value <= high),
{
    low <= value && value <= high
}

/// Whether a grid of `nx` by `ny` cells has a number of cells that fits 31 bits.
pub fn grid_fits(nx: i32, ny: i32) -> (ok: bool)
    requires
        nx >= 1,
        ny >= 1,
    ensures
        ok == (nx * ny <= i32::MAX),
{
    assert(0 <= nx * ny <= 0x7FFF_FFFF * 0x7FFF_FFFF) by (nonlinear_arith)
        requires
            1 <= nx <= 0x7FFF_FFFF,
            1 <= ny <= 0x7FFF_FFFF,
    ;
    (nx as i64) * (ny as i64) <= 0x7FFF_FFFF
}

} // verus!
