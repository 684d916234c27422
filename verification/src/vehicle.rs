//! The simulated agent: kinematic state, physical limits and steering state.
use vstd::prelude::*;
use crate::fixed::{SCALE, COORD_MAX, magnitude, lemma_trunc_div_bounds, lemma_product_magnitude};
use crate::configuration::{SCALAR_MAX, TIME_STEP_MAX, is_between};
use crate::vec2::{Vec2, lemma_within_fits};
use crate::smoother::{Smoother, Sample};
use crate::steering_behavior::{SteeringBehavior, SteeringError, SummingMethod, population_wf,
    calculated, perceived};
use crate::smoother::fed;
use crate::entity_traits::{EntityBase, EntityMovable, EntitySteerable, positions_of};
use crate::cell_space_partition::CellSpacePartition;
use crate::utils::{Truncate, WrapAround, truncate_spec, wrap_spec};

verus! {

/// Largest magnitude of a position coordinate: more than any world is wide.
pub const POSITION_MAX: i64 = 4_000_000_000_000;

/// The squared speed, in squared steps, up to which a vehicle counts as at
/// rest and keeps its heading: a hundred-millionth of a squared unit, which
/// is a hundredth of a squared step and so rounds down to zero.
pub const REST_SPEED_SQUARED: u128 = 0;

/// A vehicle that moves under the steering force of its behaviours. The
/// history behind its smoothed heading is kept by the world, one smoother
/// for each vehicle.
#[derive(Debug, Clone, Copy)]
pub struct Vehicle {
    /// Identifier, unique within the world that made the vehicle.
    pub id: i32,
    pub entity_type: i32,
    /// Set by the latest tagging pass if the vehicle was in range.
    pub tag: bool,
    pub position: Vec2,
    pub scale: Vec2,
    pub bounding_radius: i64,
    pub velocity: Vec2,
    /// Unit vector in the direction of travel.
    pub heading: Vec2,
    /// The heading turned by a quarter turn.
    pub side_vec: Vec2,
    pub mass: i64,
    pub max_speed: i64,
    pub max_force: i64,
    pub max_turn_rate: i64,
    pub m_pSteering: SteeringBehavior,
    /// The smoothed heading, for display only.
    pub m_vSmoothedHeading: Vec2,
    pub m_bSmoothingOn: bool,
    /// The time step of the latest update.
    pub m_dTimeElapsed: i64,
}

/// The vehicle after one step of motion under `force`, in a world of
/// `cx` by `cy` units: the force over the mass accelerates it for the time
/// step, the velocity is cut to the speed limit, the position advances by the
/// velocity and is wrapped around the world's edges, and heading and side
/// follow the velocity unless the vehicle is at rest, that is unless its
/// squared speed is no more than `REST_SPEED_SQUARED`.
pub open spec fn moved_spec(v: Vehicle, force: Vec2, cx: int, cy: int) -> Vehicle {
    let dt = v.m_dTimeElapsed as int;
    let acceleration = force.div_spec(v.mass as int);
    let velocity = truncate_spec(
        v.velocity.plus_spec(acceleration.scale_spec(dt)),
        v.max_speed as int,
    );
    let position = v.position.plus_spec(velocity.scale_spec(dt));
    let moving = velocity.norm_sq() > REST_SPEED_SQUARED;
    Vehicle {
        velocity,
        position: Vec2 {
            x: wrap_spec(position.x as int, cx * SCALE) as i64,
            y: wrap_spec(position.y as int, cy * SCALE) as i64,
        },
        heading: if moving {
            velocity.normalized()
        } else {
            v.heading
        },
        side_vec: if moving {
            velocity.normalized().perp_spec()
        } else {
            v.side_vec
        },
        ..v
    }
}

/// The vehicle with its smoothed heading refreshed from a history into
/// which its heading has been written at `slot`; unchanged if smoothing is off.
pub open spec fn smoothed_spec(v: Vehicle, history: Seq<Vec2>, slot: int) -> Vehicle {
    if v.m_bSmoothingOn {
        Vehicle { m_vSmoothedHeading: Vec2::mean(history.update(slot, v.heading)), ..v }
    } else {
        v
    }
}

/// The population after agent `me` has taken one step of `dt`: it notes the
/// time step, computes its steering force, moves, and refreshes its smoothed
/// heading.
pub open spec fn updated_population(
    agents: Seq<Vehicle>,
    me: int,
    dt: int,
    crosshair: Vec2,
    cx: int,
    cy: int,
    jitter: Vec2,
    history: Seq<Vec2>,
    slot: int,
) -> Seq<Vehicle> {
    let timed = agents.update(me, Vehicle { m_dTimeElapsed: dt as i64, ..agents[me] });
    let steered = calculated(timed, me, crosshair, jitter);
    steered.update(
        me,
        smoothed_spec(
            moved_spec(steered[me], steered[me].m_pSteering.m_vSteeringForce, cx, cy),
            history,
            slot,
        ),
    )
}

impl Vehicle {
    /// The limits are in range and the state respects them: the velocity is
    /// within the speed limit and the heading and side vectors are no longer
    /// than one unit.
    pub open spec fn wf(&self) -> bool {
        &&& 0 <= self.max_speed <= SCALAR_MAX
        &&& 0 <= self.max_force <= SCALAR_MAX
        &&& 1 <= self.mass <= SCALAR_MAX
        &&& self.velocity.within(self.max_speed as int)
        &&& self.heading.within(SCALE as int)
        &&& self.side_vec.within(SCALE as int)
        &&& self.position.fits(POSITION_MAX as int)
        &&& 0 <= self.m_dTimeElapsed <= TIME_STEP_MAX
        &&& self.m_pSteering.wf()
    }
}

impl Vehicle {
    /// A vehicle at rest or in motion with the given state; its side vector
    /// is its heading turned by a quarter turn.
    pub fn new(
        id: i32,
        position: Vec2,
        heading: Vec2,
        velocity: Vec2,
        mass: i64,
        max_force: i64,
        max_speed: i64,
        max_turn_rate: i64,
        scale: i64,
        steering: SteeringBehavior,
    ) -> (v: Vehicle)
        requires
            position.fits(POSITION_MAX as int),
            heading.within(SCALE as int),
            0 <= max_speed <= SCALAR_MAX,
            0 <= max_force <= SCALAR_MAX,
            1 <= mass <= SCALAR_MAX,
            velocity.within(max_speed as int),
            steering.wf(),
        ensures
            v.wf(),
            v == (Vehicle {
                id,
                entity_type: 0,
                tag: false,
                position,
                scale: Vec2 { x: scale, y: scale },
                bounding_radius: 0,
                velocity,
                heading,
                side_vec: heading.perp_spec(),
                mass,
                max_speed,
                max_force,
                max_turn_rate,
                m_pSteering: steering,
                m_vSmoothedHeading: Vec2 { x: 0, y: 0 },
                m_bSmoothingOn: true,
                m_dTimeElapsed: 0,
            }),
    {
        proof {
            lemma_within_fits(heading, SCALE as int);
        }
        Vehicle {
            id,
            entity_type: 0,
            tag: false,
            position,
            scale: Vec2 { x: scale, y: scale },
            bounding_radius: 0,
            velocity,
            heading,
            side_vec: heading.perp(),
            mass,
            max_speed,
            max_force,
            max_turn_rate,
            m_pSteering: steering,
            m_vSmoothedHeading: Vec2 { x: 0, y: 0 },
            m_bSmoothingOn: true,
            m_dTimeElapsed: 0,
        }
    }

    /// Moves the vehicle one time step under `steering_force`.
    pub fn integrate(&mut self, steering_force: Vec2, cx: i32, cy: i32)
        requires
            old(self).wf(),
            steering_force.within(old(self).max_force as int),
            cx >= 1,
            cy >= 1,
        ensures
            *final(self) == moved_spec(*old(self), steering_force, cx as int, cy as int),
            final(self).wf(),
            final(self).velocity.within(final(self).max_speed as int),
            0 <= final(self).position.x < cx * SCALE,
            0 <= final(self).position.y < cy * SCALE,
            final(self).velocity.norm_sq() > REST_SPEED_SQUARED ==> {
                &&& final(self).heading.norm_sq() >= SCALE * SCALE - 6 * SCALE
                &&& final(self).side_vec.norm_sq() == final(self).heading.norm_sq()
            },
    {
        let dt = self.m_dTimeElapsed;
        proof {
            lemma_within_fits(steering_force, self.max_force as int);
            lemma_within_fits(self.velocity, self.max_speed as int);
            let fx = magnitude(steering_force.x as int);
            let fy = magnitude(steering_force.y as int);
            assert(fx * SCALE <= i64::MAX * self.mass && fy * SCALE <= i64::MAX * self.mass)
                by (nonlinear_arith)
                requires
                    0 <= fx <= SCALAR_MAX,
                    0 <= fy <= SCALAR_MAX,
                    self.mass >= 1,
                    SCALE == 1000,
                    SCALAR_MAX == 1_000_000_000,
            ;
            lemma_product_magnitude(steering_force.x as int, SCALE as int);
            lemma_product_magnitude(steering_force.y as int, SCALE as int);
            lemma_trunc_div_bounds(steering_force.x * SCALE, self.mass as int);
            lemma_trunc_div_bounds(steering_force.y * SCALE, self.mass as int);
        }
        // acceleration = force / mass
        let acceleration = steering_force.div(self.mass);
        proof {
            lemma_scaled_by_time(acceleration, dt as int, SCALAR_MAX * SCALE);
        }
        // update the velocity and make sure it does not exceed the maximum
        let velocity = Truncate(self.velocity.plus(acceleration.scale(dt)), self.max_speed);
        proof {
            lemma_within_fits(velocity, self.max_speed as int);
            lemma_scaled_by_time(velocity, dt as int, SCALAR_MAX as int);
        }
        self.velocity = velocity;
        self.position = self.position.plus(velocity.scale(dt));
        // update the heading if the vehicle has a non-zero velocity
        if velocity.length_squared() > REST_SPEED_SQUARED {
            self.heading = velocity.normalize_or_zero();
            proof {
                lemma_within_fits(self.heading, SCALE as int);
                crate::vec2::lemma_normalized_nearly_unit(velocity);
            }
            self.side_vec = self.heading.perp();
        }
        // treat the world as a toroid
        WrapAround(&mut self.position, cx, cy);
        proof {
            assert(cx * SCALE <= 0x7FFF_FFFF * SCALE && cy * SCALE <= 0x7FFF_FFFF * SCALE)
                by (nonlinear_arith)
                requires
                    cx <= 0x7FFF_FFFF,
                    cy <= 0x7FFF_FFFF,
                    SCALE == 1000,
            ;
        }
    }
}

/// In a time step of zero a vehicle inside the world neither moves nor
/// changes its velocity, whatever the force.
pub proof fn lemma_no_motion_without_time(v: Vehicle, force: Vec2, cx: int, cy: int)
    requires
        v.wf(),
        v.m_dTimeElapsed == 0,
        cx >= 1,
        cy >= 1,
        0 <= v.position.x < cx * SCALE,
        0 <= v.position.y < cy * SCALE,
    ensures
        moved_spec(v, force, cx, cy).position == v.position,
        moved_spec(v, force, cx, cy).velocity == v.velocity,
{
    let acceleration = force.div_spec(v.mass as int);
    crate::c2d_matrix::lemma_one_and_zero(acceleration.x as int);
    crate::c2d_matrix::lemma_one_and_zero(acceleration.y as int);
    lemma_within_fits(v.velocity, v.max_speed as int);
    crate::vec2::lemma_fits_len(v.velocity, v.max_speed as int);
    crate::fixed::lemma_ceil_sqrt_le(v.velocity.norm_sq(), v.velocity.len(), v.max_speed as int);
    crate::c2d_matrix::lemma_one_and_zero(v.velocity.x as int);
    crate::c2d_matrix::lemma_one_and_zero(v.velocity.y as int);
    crate::utils::lemma_wrap_once(v.position.x as int, cx * SCALE);
    crate::utils::lemma_wrap_once(v.position.y as int, cy * SCALE);
    assert(cx * SCALE > 0 && cy * SCALE > 0) by (nonlinear_arith)
        requires
            cx >= 1,
            cy >= 1,
            SCALE == 1000,
    ;
}

/// What no update changes in a vehicle: its identity, its limits and the
/// configuration of its steering.
pub open spec fn same_make(a: Vehicle, b: Vehicle) -> bool {
    &&& a.id == b.id
    &&& a.entity_type == b.entity_type
    &&& a.scale == b.scale
    &&& a.bounding_radius == b.bounding_radius
    &&& a.mass == b.mass
    &&& a.max_speed == b.max_speed
    &&& a.max_force == b.max_force
    &&& a.max_turn_rate == b.max_turn_rate
    &&& a.m_bSmoothingOn == b.m_bSmoothingOn
    &&& a.m_pSteering == (SteeringBehavior {
        m_vSteeringForce: a.m_pSteering.m_vSteeringForce,
        m_vWanderTarget: a.m_pSteering.m_vWanderTarget,
        ..b.m_pSteering
    })
}

/// The vehicle `a` is `b` but for its tag.
pub open spec fn same_but_tag(a: Vehicle, b: Vehicle) -> bool {
    a == (Vehicle { tag: a.tag, ..b })
}

/// An update of agent `me` leaves every other agent as it was but for its
/// tag, and changes nothing of the make of `me`.
pub proof fn lemma_update_frame(
    agents: Seq<Vehicle>,
    me: int,
    dt: int,
    crosshair: Vec2,
    cx: int,
    cy: int,
    jitter: Vec2,
    history: Seq<Vec2>,
    slot: int,
)
    requires
        0 <= me < agents.len(),
        0 <= dt <= TIME_STEP_MAX,
    ensures
        updated_population(agents, me, dt, crosshair, cx, cy, jitter, history, slot).len()
            == agents.len(),
        forall|j: int|
            0 <= j < agents.len() && j != me ==> same_but_tag(
                #[trigger] updated_population(
                    agents,
                    me,
                    dt,
                    crosshair,
                    cx,
                    cy,
                    jitter,
                    history,
                    slot,
                )[j],
                agents[j],
            ),
        same_make(
            updated_population(agents, me, dt, crosshair, cx, cy, jitter, history, slot)[me],
            agents[me],
        ),
{
    let timed = agents.update(me, Vehicle { m_dTimeElapsed: dt as i64, ..agents[me] });
    let p = perceived(timed, me);
    assert forall|j: int| 0 <= j < agents.len() implies same_but_tag(#[trigger] p[j], timed[j]) by {}
}

impl Vehicle {
    /// Updates agent `me` of the population for one time step: notes the
    /// time step, computes the steering force, moves the agent and refreshes
    /// its smoothed heading from `smoother`. Returns the position that the
    /// agent had before. Fails, and changes nothing, where `Calculate` fails.
    pub fn Update(
        agents: &mut Vec<Vehicle>,
        me: usize,
        cell_space: &mut CellSpacePartition,
        smoother: &mut Smoother<Vec2>,
        crosshair: Vec2,
        cx: i32,
        cy: i32,
        time_elapsed: i64,
        jitter: Vec2,
    ) -> (r: Result<Vec2, SteeringError>)
        requires
            population_wf(old(agents)@),
            me < old(agents)@.len(),
            crosshair.fits(COORD_MAX as int),
            jitter.fits(SCALE as int),
            cx >= 1,
            cy >= 1,
            0 <= time_elapsed <= TIME_STEP_MAX,
            old(smoother).wf(),
            old(cell_space).wf(),
            old(agents)@[me as int].m_pSteering.m_bCellSpaceOn ==> {
                &&& old(cell_space).tracks(
                    positions_of(old(agents)@),
                    old(agents)@.len() as int,
                )
                &&& forall|i: int|
                    0 <= i < old(agents)@.len() ==> old(cell_space).inside(
                        #[trigger] positions_of(old(agents)@)[i],
                    )
            },
        ensures
            r == Err::<Vec2, SteeringError>(SteeringError::SummingMethodNotImplemented) <==> old(
                agents,
            )@[me as int].m_pSteering.m_SummingMethod != SummingMethod::prioritized,
            r == Err::<Vec2, SteeringError>(SteeringError::BehaviorNotImplemented) <==> (old(
                agents,
            )@[me as int].m_pSteering.m_SummingMethod == SummingMethod::prioritized && !old(
                agents,
            )@[me as int].m_pSteering.only_supported()),
            r is Err ==> final(agents)@ == old(agents)@ && *final(cell_space) == *old(cell_space)
                && *final(smoother) == *old(smoother),
            r matches Ok(old_position) ==> {
                &&& old_position == old(agents)@[me as int].position
                &&& final(agents)@ == updated_population(
                    old(agents)@,
                    me as int,
                    time_elapsed as int,
                    crosshair,
                    cx as int,
                    cy as int,
                    jitter,
                    old(smoother).m_History@,
                    old(smoother).m_iNextUpdateSlot as int,
                )
                &&& final(agents)@[me as int].m_bSmoothingOn ==> (
                final(smoother).m_History@,
                final(smoother).m_iNextUpdateSlot as int,
            ) == fed(
                    old(smoother).m_History@,
                    old(smoother).m_iNextUpdateSlot as int,
                    final(agents)@[me as int].heading,
                    1,
                )
                &&& !final(agents)@[me as int].m_bSmoothingOn ==> *final(smoother) == *old(smoother)
                &&& 0 <= final(agents)@[me as int].position.x < cx * SCALE
                &&& 0 <= final(agents)@[me as int].position.y < cy * SCALE
                &&& final(agents)@[me as int].m_pSteering.m_vSteeringForce.within(
                    final(agents)@[me as int].max_force as int,
                )
                &&& final(agents)@[me as int].velocity.within(
                    final(agents)@[me as int].max_speed as int,
                )
            },
            population_wf(final(agents)@),
            final(smoother).wf(),
            final(cell_space).wf(),
            final(cell_space).same_grid(old(cell_space)),
            final(cell_space).m_Cells == old(cell_space).m_Cells,
    {
        let ghost start = agents@;
        let previous = agents[me].m_dTimeElapsed;
        let old_position = agents[me].position;
        // update the time elapsed
        agents[me].m_dTimeElapsed = time_elapsed;
        let ghost timed = agents@;
        proof {
            assert(timed =~= start.update(
                me as int,
                Vehicle { m_dTimeElapsed: time_elapsed, ..start[me as int] },
            ));
            assert(positions_of(timed) =~= positions_of(start));
        }
        // calculate the combined force from each steering behaviour
        let steering_force = match SteeringBehavior::Calculate(
            agents,
            me,
            cell_space,
            crosshair,
            jitter,
        ) {
            Ok(force) => force,
            Err(e) => {
                agents[me].m_dTimeElapsed = previous;
                return Err(e);
            },
        };
        agents[me].integrate(steering_force, cx, cy);
        if agents[me].m_bSmoothingOn {
            let heading = agents[me].heading;
            agents[me].m_vSmoothedHeading = smoother.update(heading);
        }
        proof {
            assert(agents@ =~= updated_population(
                start,
                me as int,
                time_elapsed as int,
                crosshair,
                cx as int,
                cy as int,
                jitter,
                old(smoother).m_History@,
                old(smoother).m_iNextUpdateSlot as int,
            ));
        }
        Ok(old_position)
    }
}

/// Scaling a vector with components up to `bound` by a time step cannot
/// overflow, and the result has components up to `bound` thousand.
pub proof fn lemma_scaled_by_time(v: Vec2, dt: int, bound: int)
    requires
        v.fits(bound),
        0 <= bound <= SCALAR_MAX * SCALE,
        0 <= dt <= TIME_STEP_MAX,
    ensures
        magnitude(v.x as int) * magnitude(dt) <= i64::MAX * SCALE,
        magnitude(v.y as int) * magnitude(dt) <= i64::MAX * SCALE,
        magnitude(crate::fixed::fx_mul(v.x as int, dt)) <= bound * 1000,
        magnitude(crate::fixed::fx_mul(v.y as int, dt)) <= bound * 1000,
{
    let mx = magnitude(v.x as int);
    let my = magnitude(v.y as int);
    assert(mx * dt <= bound * TIME_STEP_MAX && my * dt <= bound * TIME_STEP_MAX)
        by (nonlinear_arith)
        requires
            0 <= mx <= bound,
            0 <= my <= bound,
            0 <= dt <= TIME_STEP_MAX,
    ;
    assert(bound * TIME_STEP_MAX <= (SCALAR_MAX * SCALE) * TIME_STEP_MAX) by (nonlinear_arith)
        requires
            0 <= bound <= SCALAR_MAX * SCALE,
            TIME_STEP_MAX >= 0,
    ;
    lemma_product_magnitude(v.x as int, dt);
    lemma_product_magnitude(v.y as int, dt);
    lemma_trunc_div_bounds(v.x * dt, SCALE as int);
    lemma_trunc_div_bounds(v.y * dt, SCALE as int);
    let qx = magnitude(crate::fixed::fx_mul(v.x as int, dt));
    let qy = magnitude(crate::fixed::fx_mul(v.y as int, dt));
    assert(qx <= bound * 1000 && qy <= bound * 1000) by (nonlinear_arith)
        requires
            qx * SCALE <= bound * TIME_STEP_MAX,
            qy * SCALE <= bound * TIME_STEP_MAX,
            SCALE == 1000,
            TIME_STEP_MAX == 1_000_000,
    ;
}

impl Vehicle {
    /// Whether the vehicle is well-formed.
    pub fn is_wf(&self) -> (ok: bool)
        ensures
            ok == self.wf(),
    {
        if !(is_between(self.max_speed, 0, SCALAR_MAX) && is_between(self.max_force, 0, SCALAR_MAX)
            && is_between(self.mass, 1, SCALAR_MAX) && is_between(
            self.m_dTimeElapsed,
            0,
            TIME_STEP_MAX,
        )) {
            return false;
        }
        self.velocity.is_within(self.max_speed) && self.heading.is_within(SCALE)
            && self.side_vec.is_within(SCALE) && self.position.is_fitting(POSITION_MAX)
            && self.m_pSteering.is_wf()
    }

    /// The heading averaged over the latest updates, for display.
    pub fn SmoothedHeading(&self) -> (h: Vec2)
        ensures
            h == self.m_vSmoothedHeading,
    {
        self.m_vSmoothedHeading
    }
}

impl EntityBase for Vehicle {
    open spec fn id_spec(&self) -> i32 {
        self.id
    }

    open spec fn entity_type_spec(&self) -> i32 {
        self.entity_type
    }

    open spec fn position_spec(&self) -> Vec2 {
        self.position
    }

    open spec fn bounding_radius_spec(&self) -> i64 {
        self.bounding_radius
    }

    open spec fn tagged_spec(&self) -> bool {
        self.tag
    }

    open spec fn scale_spec(&self) -> Vec2 {
        self.scale
    }

    /// A vehicle takes any scale: its bounding radius does not follow it.
    open spec fn can_rescale(&self, val: Vec2) -> bool {
        true
    }

    fn id(&self) -> (r: i32) {
        self.id
    }

    fn entity_type(&self) -> (r: i32) {
        self.entity_type
    }

    fn position(&self) -> (r: Vec2) {
        self.position
    }

    fn bounding_radius(&self) -> (r: i64) {
        self.bounding_radius
    }

    fn tag(&mut self)
        ensures
            *final(self) == (Vehicle { tag: true, ..*old(self) }),
    {
        self.tag = true;
    }

    fn untag(&mut self)
        ensures
            *final(self) == (Vehicle { tag: false, ..*old(self) }),
    {
        self.tag = false;
    }

    fn is_tagged(&self) -> (r: bool) {
        self.tag
    }

    fn scale(&self) -> (r: Vec2) {
        self.scale
    }

    fn set_scale_vec(&mut self, val: Vec2)
        ensures
            *final(self) == (Vehicle { scale: val, ..*old(self) }),
    {
        self.scale = val;
    }

    fn set_scale_float(&mut self, val: i64)
        ensures
            *final(self) == (Vehicle { scale: Vec2 { x: val, y: val }, ..*old(self) }),
    {
        self.scale = Vec2 { x: val, y: val };
    }
}

impl EntityMovable for Vehicle {
    open spec fn mass_spec(&self) -> i64 {
        self.mass
    }

    open spec fn velocity_spec(&self) -> Vec2 {
        self.velocity
    }

    open spec fn heading_spec(&self) -> Vec2 {
        self.heading
    }

    open spec fn side_spec(&self) -> Vec2 {
        self.side_vec
    }

    open spec fn max_force_spec(&self) -> i64 {
        self.max_force
    }

    open spec fn max_speed_spec(&self) -> i64 {
        self.max_speed
    }

    open spec fn speed_measurable(&self) -> bool {
        self.velocity.fits(crate::fixed::COMPONENT_MAX as int)
    }

    /// The new limit is in range and the vehicle is not faster already.
    open spec fn can_limit_speed(&self, speed: i64) -> bool {
        0 <= speed <= SCALAR_MAX && self.velocity.within(speed as int)
    }

    fn mass(&self) -> (r: i64) {
        self.mass
    }

    fn velocity(&self) -> (r: Vec2) {
        self.velocity
    }

    fn speed(&self) -> (r: i64) {
        self.velocity.length()
    }

    fn heading(&self) -> (r: Vec2) {
        self.heading
    }

    fn side(&self) -> (r: Vec2) {
        self.side_vec
    }

    fn max_force(&self) -> (r: i64) {
        self.max_force
    }

    fn max_speed(&self) -> (r: i64) {
        self.max_speed
    }

    fn set_max_speed(&mut self, speed: i64)
        ensures
            *final(self) == (Vehicle { max_speed: speed, ..*old(self) }),
            old(self).wf() ==> final(self).wf(),
    {
        self.max_speed = speed;
    }
}

impl EntitySteerable for Vehicle {

}

} // verus!
