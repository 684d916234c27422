//! Operations on a whole population.
use vstd::prelude::*;
use crate::vec2::lemma_square_bounds;
use crate::vehicle::{Vehicle, POSITION_MAX};
use crate::cell_space_partition::in_range;

verus! {

/// The population with its tags refreshed for agent `me`: an agent is tagged
/// if it is another agent and strictly closer to `me` than `radius`.
pub open spec fn tagged_population(agents: Seq<Vehicle>, me: int, radius: int) -> Seq<Vehicle> {
    Seq::new(
        agents.len(),
        |i: int|
            Vehicle {
                tag: i != me && in_range(agents[i].position, agents[me].position, radius),
                ..agents[i]
            },
    )
}

/// Tags every agent within `radius` of agent `me` and clears the tag of
/// every other agent, `me` included.
pub fn TagNeighbors(agents: &mut Vec<Vehicle>, me: usize, radius: i64)
    requires
        me < old(agents)@.len(),
        forall|i: int|
            0 <= i < old(agents)@.len() ==> (#[trigger] old(agents)@[i]).position.fits(
                POSITION_MAX as int,
            ),
    ensures
        final(agents)@ == tagged_population(old(agents)@, me as int, radius as int),
{
    let n = agents.len();
    let own = agents[me].position;
    proof {
        lemma_square_bounds(radius as int);
    }
    let radius_squared: u128 = ((radius as i128) * (radius as i128)) as u128;
    let mut i: usize = 0;
    while i < n
        invariant
            0 <= i <= n,
            n == agents@.len(),
            n == old(agents)@.len(),
            me < n,
            own == old(agents)@[me as int].position,
            radius_squared == radius * radius,
            forall|j: int|
                0 <= j < n ==> (#[trigger] old(agents)@[j]).position.fits(POSITION_MAX as int),
            forall|j: int|
                0 <= j < i ==> #[trigger] agents@[j] == tagged_population(
                    old(agents)@,
                    me as int,
                    radius as int,
                )[j],
            forall|j: int| i <= j < n ==> #[trigger] agents@[j] == old(agents)@[j],
        decreases n - i,
    {
        let in_reach = i != me && radius > 0 && agents[i].position.distance_squared(own)
            < radius_squared;
        agents[i].tag = in_reach;
        i = i + 1;
    }
}

} // verus!
