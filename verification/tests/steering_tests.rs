use flocking::cell_space_partition::CellSpacePartition;
use flocking::configuration::ConfigLoader;
use flocking::entity_functions::TagNeighbors;
use flocking::steering_behavior::{BehaviorType, Deceleration, SteeringBehavior, SteeringError,
    SummingMethod, sum_listed, sum_tagged, GroupQuantity};
use flocking::transformations::PointToWorldSpace;
use flocking::vec2::Vec2;
use flocking::vehicle::Vehicle;

fn steering() -> SteeringBehavior {
    SteeringBehavior::from_config(&ConfigLoader::new(), Vec2::new(1_200, 0))
}

fn agent_at(id: usize, x: i64, y: i64) -> Vehicle {
    Vehicle::new(
        id as i32,
        Vec2::new(x, y),
        Vec2::new(1_000, 0),
        Vec2::new(0, 0),
        1_000,
        400_000,
        80_000,
        3_142,
        20_000,
        steering(),
    )
}

const ALL: [BehaviorType; 16] = [
    BehaviorType::seek,
    BehaviorType::flee,
    BehaviorType::arrive,
    BehaviorType::wander,
    BehaviorType::cohesion,
    BehaviorType::separation,
    BehaviorType::alignment,
    BehaviorType::obstacle_avoidance,
    BehaviorType::wall_avoidance,
    BehaviorType::follow_path,
    BehaviorType::pursuit,
    BehaviorType::evade,
    BehaviorType::interpose,
    BehaviorType::hide_,
    BehaviorType::flock,
    BehaviorType::offset_pursuit,
];

fn enabled(s: &SteeringBehavior) -> Vec<BehaviorType> {
    ALL.iter().copied().filter(|b| s.On(*b)).collect()
}

#[test]
fn a_new_steering_state_takes_its_values_from_the_configuration() {
    let s = steering();
    assert_eq!(s.m_iFlags, 0);
    assert!(enabled(&s).is_empty());
    assert!(s.On(BehaviorType::none));
    assert_eq!(s.m_dWeightSeparation, 200_000);
    assert_eq!(s.m_dWeightCohesion, 400_000);
    assert_eq!(s.m_dWeightAlignment, 200_000);
    assert_eq!(s.m_dWeightWander, 200_000);
    assert_eq!(s.m_dWeightEvade, 200_000);
    assert_eq!(s.m_dViewDistance, 50_000);
    assert_eq!(s.m_dThreatRange, 100_000);
    assert_eq!(s.m_dWanderRadius, 1_200);
    assert_eq!(s.m_dWanderDistance, 2_000);
    assert_eq!(s.m_dWanderJitter, 80_000);
    assert_eq!(s.m_vWanderTarget, Vec2::new(1_200, 0));
    assert_eq!(s.m_SummingMethod, SummingMethod::prioritized);
    assert_eq!(s.m_Deceleration, Deceleration::normal);
    assert_eq!(s.m_pTargetAgent1, None);
    assert!(!s.isSpacePartitioningOn());
    let random = SteeringBehavior::new();
    assert_eq!(random.m_iFlags, 0);
    assert!(random.m_vWanderTarget.length_squared() <= 1_200 * 1_200);
    assert_eq!(random.m_dWeightCohesion, 400_000);
}

#[test]
fn behaviours_are_switched_on_and_off_one_by_one() {
    let mut s = steering();
    s.CohesionOn();
    assert_eq!(enabled(&s), vec![BehaviorType::cohesion]);
    s.SeparationOn();
    s.AlignmentOn();
    s.WanderOn();
    assert_eq!(s.m_iFlags, 0xF0);
    s.AlignmentOff();
    assert_eq!(
        enabled(&s),
        vec![BehaviorType::wander, BehaviorType::cohesion, BehaviorType::separation]
    );
    // switching off what is off changes nothing
    s.AlignmentOff();
    assert_eq!(s.m_iFlags, 0x70);
    s.CohesionOff();
    s.SeparationOff();
    s.WanderOff();
    assert_eq!(s.m_iFlags, 0);
    s.WanderOn();
    s.WanderOn();
    assert_eq!(s.m_iFlags, 0x10);
}

#[test]
fn flocking_is_cohesion_alignment_separation_and_wander() {
    let mut s = steering();
    s.EvadeOn(3);
    s.FlockingOn();
    assert_eq!(s.m_iFlags, 0x10F0);
    assert_eq!(s.m_pTargetAgent1, Some(3));
    s.FlockingOff();
    assert_eq!(enabled(&s), vec![BehaviorType::evade]);
    s.PursuitOn(5);
    assert_eq!(s.m_iFlags, 0x1800);
    assert_eq!(s.m_pTargetAgent1, Some(5));
}

#[test]
fn behaviour_bits_and_deceleration_tiers() {
    assert_eq!(BehaviorType::none.bits(), 0);
    assert_eq!(BehaviorType::seek.bits(), 0x2);
    assert_eq!(BehaviorType::wander.bits(), 0x10);
    assert_eq!(BehaviorType::evade.bits(), 0x1000);
    assert_eq!(BehaviorType::offset_pursuit.bits(), 0x10000);
    let mut seen = 0u32;
    for b in ALL {
        assert_eq!(b.bits().count_ones(), 1);
        assert_eq!(seen & b.bits(), 0);
        seen |= b.bits();
    }
    assert_eq!(seen, 0x1FFFE);
    assert_eq!(Deceleration::slow.tier(), 3);
    assert_eq!(Deceleration::normal.tier(), 2);
    assert_eq!(Deceleration::fast.tier(), 1);
}

#[test]
fn seek_heads_for_the_target_at_full_speed() {
    let mut v = agent_at(0, 0, 0);
    assert_eq!(SteeringBehavior::Seek(&v, Vec2::new(3_000, 4_000)), Vec2::new(48_000, 64_000));
    v.velocity = Vec2::new(10_000, -5_000);
    assert_eq!(SteeringBehavior::Seek(&v, Vec2::new(3_000, 4_000)), Vec2::new(38_000, 69_000));
    // at the target only the velocity is braked
    assert_eq!(SteeringBehavior::Seek(&v, Vec2::new(0, 0)), Vec2::new(-10_000, 5_000));
}

#[test]
fn flee_mirrors_seek() {
    let mut v = agent_at(0, 0, 0);
    assert_eq!(SteeringBehavior::Flee(&v, Vec2::new(3_000, 4_000)), Vec2::new(-48_000, -64_000));
    v.velocity = Vec2::new(10_000, -5_000);
    assert_eq!(SteeringBehavior::Flee(&v, Vec2::new(3_000, 4_000)), Vec2::new(-58_000, -59_000));
    v.velocity = Vec2::new(0, 0);
    for target in [Vec2::new(17, -900), Vec2::new(-123_456, 7), Vec2::new(1, 1)] {
        let seek = SteeringBehavior::Seek(&v, target);
        let flee = SteeringBehavior::Flee(&v, target);
        assert_eq!(flee, Vec2::new(-seek.x, -seek.y));
    }
}

#[test]
fn arrive_slows_down_near_the_target() {
    let mut v = agent_at(0, 0, 0);
    // distance 5, tier 2: speed 5 / 0.6 = 8.333
    assert_eq!(
        SteeringBehavior::Arrive(&v, Vec2::new(3_000, 4_000), Deceleration::normal),
        Vec2::new(4_999, 6_666)
    );
    // the lower the tier, the higher the speed
    let fast = SteeringBehavior::Arrive(&v, Vec2::new(3_000, 4_000), Deceleration::fast);
    let slow = SteeringBehavior::Arrive(&v, Vec2::new(3_000, 4_000), Deceleration::slow);
    assert_eq!(fast, Vec2::new(9_999, 13_332));
    assert_eq!(slow, Vec2::new(3_333, 4_444));
    // far away the speed is capped
    v.velocity = Vec2::new(1_000, 0);
    assert_eq!(
        SteeringBehavior::Arrive(&v, Vec2::new(300_000, 400_000), Deceleration::fast),
        Vec2::new(47_000, 64_000)
    );
    // at the target the force is zero, whatever the velocity
    assert_eq!(
        SteeringBehavior::Arrive(&v, Vec2::new(0, 0), Deceleration::slow),
        Vec2::new(0, 0)
    );
}

#[test]
fn pursuit_seeks_a_facing_evader_directly() {
    let pursuer = agent_at(0, 0, 0);
    let mut evader = agent_at(1, 50_000, 0);
    evader.heading = Vec2::new(-1_000, 0);
    evader.velocity = Vec2::new(-10_000, 0);
    assert_eq!(SteeringBehavior::Pursuit(&pursuer, &evader), Vec2::new(80_000, 0));
    // an evader that moves across is met where it will be:
    // look-ahead 50 / (80 + 20) = 0.5 s, so 10 units further on
    evader.heading = Vec2::new(0, 1_000);
    evader.velocity = Vec2::new(0, 20_000);
    assert_eq!(SteeringBehavior::Pursuit(&pursuer, &evader), Vec2::new(78_400, 15_680));
    // an evader behind is never sought directly
    let mut behind = agent_at(2, -50_000, 0);
    behind.heading = Vec2::new(-1_000, 0);
    behind.velocity = Vec2::new(0, 20_000);
    assert_eq!(SteeringBehavior::Pursuit(&pursuer, &behind), Vec2::new(-78_400, 15_680));
}

#[test]
fn evade_flees_from_where_the_pursuer_will_be() {
    let vehicle = agent_at(0, 0, 0);
    let mut pursuer = agent_at(1, 30_000, 40_000);
    pursuer.velocity = Vec2::new(-6_000, -8_000);
    // look-ahead 50 / (80 + 10) = 0.555 s
    assert_eq!(SteeringBehavior::Evade(&vehicle, &pursuer), Vec2::new(-48_000, -64_000));
    pursuer.velocity = Vec2::new(8_000, -6_000);
    let force = SteeringBehavior::Evade(&vehicle, &pursuer);
    assert_eq!(force, SteeringBehavior::Flee(&vehicle, Vec2::new(34_440, 36_670)));
}

#[test]
fn evade_ignores_a_pursuer_beyond_the_threat_range() {
    let vehicle = agent_at(0, 0, 0);
    let mut far = agent_at(1, 60_000, 80_001);
    far.velocity = Vec2::new(-50_000, 0);
    assert_eq!(SteeringBehavior::Evade(&vehicle, &far), Vec2::new(0, 0));
    // exactly at the threat range the pursuer still counts
    let at_range = agent_at(1, 60_000, 80_000);
    assert_eq!(SteeringBehavior::Evade(&vehicle, &at_range), Vec2::new(-48_000, -64_000));
    // a vehicle that cannot move and a pursuer at rest: no division by zero
    let mut stuck = agent_at(0, 0, 0);
    stuck.max_speed = 0;
    let near = agent_at(1, 3_000, 4_000);
    assert_eq!(SteeringBehavior::Evade(&stuck, &near), Vec2::new(0, 0));
}

#[test]
fn wander_moves_the_target_along_the_circle() {
    let mut v = agent_at(0, 100_000, 100_000);
    v.side_vec = Vec2::new(0, 1_000);
    v.m_dTimeElapsed = 100;
    let (force, target) = SteeringBehavior::Wander(&v, Vec2::new(1_000, -500));
    assert_eq!(target, Vec2::new(1_100, -477));
    assert_eq!(force, Vec2::new(3_100, -477));
    assert!(target.length() <= 1_200);
    // without jitter the target stays on the circle where it was
    let (force, target) = SteeringBehavior::Wander(&v, Vec2::new(0, 0));
    assert_eq!(target, Vec2::new(1_200, 0));
    assert_eq!(force, Vec2::new(3_200, 0));
    // the force turns with the heading
    v.heading = Vec2::new(0, 1_000);
    v.side_vec = Vec2::new(-1_000, 0);
    let (force, _) = SteeringBehavior::Wander(&v, Vec2::new(0, 0));
    assert_eq!(force, Vec2::new(0, 3_200));
}

#[test]
fn a_point_is_projected_into_world_space() {
    let p = PointToWorldSpace(
        Vec2::new(2_000, 1_000),
        Vec2::new(0, 1_000),
        Vec2::new(-1_000, 0),
        Vec2::new(10_000, 20_000),
    );
    assert_eq!(p, Vec2::new(9_000, 22_000));
    let q = PointToWorldSpace(
        Vec2::new(5_000, 0),
        Vec2::new(600, 800),
        Vec2::new(-800, 600),
        Vec2::new(0, 0),
    );
    assert_eq!(q, Vec2::new(3_000, 4_000));
}

#[test]
fn the_force_budget_is_filled_and_then_closed() {
    let v = agent_at(0, 0, 0);
    let mut total = Vec2::new(0, 0);
    assert!(SteeringBehavior::AccumulateForce(&v, &mut total, Vec2::new(300_000, 0)));
    assert_eq!(total, Vec2::new(300_000, 0));
    // only 100 of the second 300 fit
    assert!(SteeringBehavior::AccumulateForce(&v, &mut total, Vec2::new(300_000, 0)));
    assert_eq!(total, Vec2::new(400_000, 0));
    // the budget is used up: the total stays and the answer is no
    assert!(!SteeringBehavior::AccumulateForce(&v, &mut total, Vec2::new(1, 1)));
    assert_eq!(total, Vec2::new(400_000, 0));
    let mut sideways = Vec2::new(0, 300_000);
    assert!(SteeringBehavior::AccumulateForce(&v, &mut sideways, Vec2::new(400_000, 0)));
    assert_eq!(sideways, Vec2::new(100_000, 300_000));
    // a force of exactly the rest of the budget is cut, not added whole
    let mut exact = Vec2::new(0, 0);
    assert!(SteeringBehavior::AccumulateForce(&v, &mut exact, Vec2::new(0, -400_000)));
    assert_eq!(exact, Vec2::new(0, -400_000));
    let mut zero = Vec2::new(0, 0);
    assert!(SteeringBehavior::AccumulateForce(&v, &mut zero, Vec2::new(0, 0)));
    assert_eq!(zero, Vec2::new(0, 0));
}

#[test]
fn the_running_total_never_exceeds_the_budget() {
    let v = agent_at(0, 0, 0);
    let mut state = 12345u64;
    let mut draw = |bound: i64| {
        state = state.wrapping_mul(6364136223846793005).wrapping_add(1442695040888963407);
        ((state >> 33) as i64) % (2 * bound) - bound
    };
    for _ in 0..200 {
        let mut total = Vec2::new(0, 0);
        for _ in 0..6 {
            let force = Vec2::new(draw(500_000), draw(500_000));
            let more = SteeringBehavior::AccumulateForce(&v, &mut total, force);
            assert!(total.length_squared() <= 400_000u128 * 400_000u128);
            if !more {
                break;
            }
        }
    }
}

fn pair() -> Vec<Vehicle> {
    let mut a = agent_at(0, 100_000, 100_000);
    a.m_pSteering.CohesionOn();
    let b = agent_at(1, 103_000, 104_000);
    vec![a, b]
}

#[test]
fn cohesion_points_at_the_single_tagged_neighbour() {
    let mut agents = pair();
    TagNeighbors(&mut agents, 0, 50_000);
    assert!(agents[1].tag);
    assert!(!agents[0].tag);
    let force = SteeringBehavior::Cohesion(&agents, 0);
    // B lies in the direction (3, 4) of A
    assert_eq!(force, Vec2::new(600, 800));
    assert_eq!(force.length(), 1_000);
    // without a tag B is not considered
    agents[1].tag = false;
    assert_eq!(SteeringBehavior::Cohesion(&agents, 0), Vec2::new(0, 0));
}

#[test]
fn tagging_marks_the_agents_within_the_radius() {
    let mut agents = vec![
        agent_at(0, 100_000, 100_000),
        agent_at(1, 103_000, 104_000),
        agent_at(2, 100_000, 150_000),
        agent_at(3, 100_000, 149_999),
    ];
    agents[2].tag = true;
    agents[0].tag = true;
    TagNeighbors(&mut agents, 0, 50_000);
    let tags: Vec<bool> = agents.iter().map(|a| a.tag).collect();
    assert_eq!(tags, vec![false, true, false, true]);
    TagNeighbors(&mut agents, 1, 0);
    assert!(agents.iter().all(|a| !a.tag));
    TagNeighbors(&mut agents, 1, 5_001);
    let tags: Vec<bool> = agents.iter().map(|a| a.tag).collect();
    assert_eq!(tags, vec![true, false, false, false]);
    TagNeighbors(&mut agents, 1, -5_001);
    assert!(agents.iter().all(|a| !a.tag));
}

fn flock() -> Vec<Vehicle> {
    let mut agents = vec![
        agent_at(0, 100_000, 100_000),
        agent_at(1, 103_000, 104_000),
        agent_at(2, 100_000, 90_000),
        agent_at(3, 400_000, 400_000),
        agent_at(4, 100_000, 100_000),
    ];
    agents[1].heading = Vec2::new(0, 1_000);
    agents[2].heading = Vec2::new(-600, 800);
    agents[4].heading = Vec2::new(0, -1_000);
    agents
}

#[test]
fn separation_pushes_away_from_close_neighbours() {
    let mut agents = flock();
    TagNeighbors(&mut agents, 0, 50_000);
    // from agent 1: (-0.6, -0.8) / 5; from agent 2: (0, 1) / 10; agent 4 coincides
    assert_eq!(SteeringBehavior::Separation(&agents, 0), Vec2::new(-120, -60));
    assert_eq!(SteeringBehavior::SeparationPlus(&agents, 0, &vec![2, 1, 0, 4]), Vec2::new(-120, -60));
    assert_eq!(SteeringBehavior::SeparationPlus(&agents, 0, &vec![1]), Vec2::new(-120, -160));
    assert_eq!(SteeringBehavior::SeparationPlus(&agents, 0, &vec![]), Vec2::new(0, 0));
    assert_eq!(SteeringBehavior::SeparationPlus(&agents, 0, &vec![0]), Vec2::new(0, 0));
}

#[test]
fn alignment_is_the_mean_heading_minus_the_own() {
    let mut agents = flock();
    TagNeighbors(&mut agents, 0, 50_000);
    // mean of (0, 1), (-0.6, 0.8), (0, -1) is (-0.2, 0.266); own heading (1, 0)
    assert_eq!(SteeringBehavior::Alignment(&agents, 0), Vec2::new(-1_200, 266));
    assert_eq!(SteeringBehavior::AlignmentPlus(&agents, 0, &vec![4, 2, 1]), Vec2::new(-1_200, 266));
    assert_eq!(SteeringBehavior::AlignmentPlus(&agents, 0, &vec![0, 1]), Vec2::new(-1_000, 1_000));
    assert_eq!(SteeringBehavior::AlignmentPlus(&agents, 0, &vec![0]), Vec2::new(0, 0));
    assert_eq!(SteeringBehavior::AlignmentPlus(&agents, 0, &vec![]), Vec2::new(0, 0));
}

#[test]
fn cohesion_is_a_unit_vector_towards_the_centre_of_mass() {
    let mut agents = flock();
    TagNeighbors(&mut agents, 0, 50_000);
    // centre of mass of agents 1, 2 and 4: (101, 98)
    let force = SteeringBehavior::Cohesion(&agents, 0);
    assert_eq!(force, Vec2::new(447, -894));
    assert_eq!(SteeringBehavior::CohesionPlus(&agents, 0, &vec![1, 4, 2]), force);
    assert_eq!(SteeringBehavior::CohesionPlus(&agents, 0, &vec![3]), Vec2::new(707, 707));
    assert_eq!(SteeringBehavior::CohesionPlus(&agents, 0, &vec![0]), Vec2::new(0, 0));
}

#[test]
fn both_variants_agree_on_the_same_neighbours() {
    let mut state = 99u64;
    let mut draw = |bound: i64| {
        state = state.wrapping_mul(6364136223846793005).wrapping_add(1442695040888963407);
        ((state >> 33) as i64) % bound
    };
    let mut agents: Vec<Vehicle> = (0..60).map(|i| agent_at(i, draw(200_000), draw(200_000))).collect();
    for a in agents.iter_mut() {
        a.heading = Vec2::new(draw(2_000) - 1_000, draw(2_000) - 1_000).normalize_or_zero();
    }
    let mut space = CellSpacePartition::new(200_000, 200_000, 5, 5, 60);
    for (i, a) in agents.iter().enumerate() {
        space.add_entity(i, a.position);
    }
    for me in 0..agents.len() {
        TagNeighbors(&mut agents, me, 50_000);
        space.CalculateNeighbors(&agents, agents[me].position, 50_000);
        let mut listed = space.m_Neighbors.clone();
        assert_eq!(
            SteeringBehavior::Separation(&agents, me),
            SteeringBehavior::SeparationPlus(&agents, me, &listed)
        );
        assert_eq!(
            SteeringBehavior::Alignment(&agents, me),
            SteeringBehavior::AlignmentPlus(&agents, me, &listed)
        );
        assert_eq!(
            SteeringBehavior::Cohesion(&agents, me),
            SteeringBehavior::CohesionPlus(&agents, me, &listed)
        );
        // the order of the neighbours does not matter
        listed.reverse();
        for which in [GroupQuantity::Repulsion, GroupQuantity::Heading, GroupQuantity::Position] {
            let a = sum_tagged(&agents, me, which);
            let b = sum_listed(&agents, me, &listed, which);
            assert_eq!((a.x, a.y, a.count), (b.x, b.y, b.count));
        }
    }
}

#[test]
fn the_brute_force_variants_leave_out_the_agent_evaded() {
    let mut agents = flock();
    agents[0].m_pSteering.EvadeOn(1);
    TagNeighbors(&mut agents, 0, 50_000);
    assert_eq!(SteeringBehavior::Separation(&agents, 0), Vec2::new(0, 100));
    assert_eq!(SteeringBehavior::SeparationPlus(&agents, 0, &vec![1, 2, 4]), Vec2::new(-120, -60));
}

#[test]
fn the_prioritized_sum_stops_when_the_budget_is_used_up() {
    let mut agents = pair();
    agents[0].m_pSteering.FlockingOff();
    agents[0].m_pSteering.EvadeOn(1);
    agents[0].m_pSteering.WanderOn();
    agents[0].m_dTimeElapsed = 100;
    // evade alone asks for 80 * 200 units of force and is cut to the budget
    // of 400; wander is still evaluated, but nothing of it fits
    let (force, target) =
        SteeringBehavior::CalculatePrioritized(&agents, 0, &vec![], Vec2::new(0, 0), Vec2::new(1_000, 1_000));
    assert_eq!(force, Vec2::new(-240_000, -320_000));
    assert_eq!(force.length(), 400_000);
    assert_eq!(target, Vec2::new(904, 787));
    // with flee between the two, flee finds the budget used up and wander
    // is not evaluated any more: its target has not moved
    agents[0].m_pSteering.m_iFlags |= BehaviorType::flee.bits();
    let (force, target) =
        SteeringBehavior::CalculatePrioritized(&agents, 0, &vec![], Vec2::new(0, 0), Vec2::new(1_000, 1_000));
    assert_eq!(force, Vec2::new(-240_000, -320_000));
    assert_eq!(target, Vec2::new(1_200, 0));
}

#[test]
fn a_weak_behaviour_leaves_room_for_the_next() {
    let mut agents = pair();
    agents[0].side_vec = Vec2::new(0, 1_000);
    agents[0].m_pSteering.CohesionOff();
    agents[0].m_pSteering.AlignmentOn();
    agents[0].m_pSteering.WanderOn();
    agents[0].m_pSteering.m_dWeightWander = 1_000;
    agents[0].m_dTimeElapsed = 100;
    agents[1].heading = Vec2::new(0, 1_000);
    agents[1].tag = true;
    // alignment: ((0, 1) - (1, 0)) * 200 = (-200, 200), length 282.843
    // wander: (3.1, -0.477) * 1, less than the rest of the budget
    let (force, target) = SteeringBehavior::CalculatePrioritized(
        &agents,
        0,
        &vec![],
        Vec2::new(0, 0),
        Vec2::new(1_000, -500),
    );
    assert_eq!(target, Vec2::new(1_100, -477));
    assert_eq!(force, Vec2::new(-196_900, 199_523));
    // with the full weight wander is cut to the rest of the budget
    agents[0].m_pSteering.m_dWeightWander = 200_000;
    let (force, _) = SteeringBehavior::CalculatePrioritized(
        &agents,
        0,
        &vec![],
        Vec2::new(0, 0),
        Vec2::new(1_000, -500),
    );
    assert!(force.length_squared() <= 400_000u128 * 400_000u128);
    assert_eq!(force, Vec2::new(-84_249, 182_193));
}

#[test]
fn no_behaviour_gives_no_force() {
    let agents = pair_without_flags();
    let (force, target) =
        SteeringBehavior::CalculatePrioritized(&agents, 0, &vec![1], Vec2::new(0, 0), Vec2::new(500, 500));
    assert_eq!(force, Vec2::new(0, 0));
    assert_eq!(target, Vec2::new(1_200, 0));
}

fn pair_without_flags() -> Vec<Vehicle> {
    let mut agents = pair();
    agents[0].m_pSteering.CohesionOff();
    agents
}

fn space_for(agents: &Vec<Vehicle>) -> CellSpacePartition {
    let mut space = CellSpacePartition::new(600_000, 600_000, 7, 7, 10);
    for (i, a) in agents.iter().enumerate() {
        space.add_entity(i, a.position);
    }
    space
}

#[test]
fn calculate_tags_the_neighbours_and_stores_the_force() {
    let mut agents = pair();
    let mut space = space_for(&agents);
    let r = SteeringBehavior::Calculate(&mut agents, 0, &mut space, Vec2::new(0, 0), Vec2::new(0, 0));
    // cohesion: the unit vector (0.6, 0.8) times the weight 400, exactly the budget
    assert_eq!(r, Ok(Vec2::new(240_000, 320_000)));
    assert_eq!(agents[0].m_pSteering.m_vSteeringForce, Vec2::new(240_000, 320_000));
    assert!(agents[1].tag);
    assert!(space.m_Neighbors.is_empty());
}

#[test]
fn calculate_asks_the_partition_when_it_is_in_use() {
    let mut agents = pair();
    agents[0].m_pSteering.m_bCellSpaceOn = true;
    agents[1].m_pSteering.m_bCellSpaceOn = true;
    let mut space = space_for(&agents);
    let r = SteeringBehavior::Calculate(&mut agents, 0, &mut space, Vec2::new(0, 0), Vec2::new(0, 0));
    assert_eq!(r, Ok(Vec2::new(240_000, 320_000)));
    assert!(!agents[1].tag);
    let mut found = space.m_Neighbors.clone();
    found.sort();
    assert_eq!(found, vec![0, 1]);
    // out of view nothing pulls
    agents[1].position = Vec2::new(100_000, 150_000);
    let mut space = space_for(&agents);
    let r = SteeringBehavior::Calculate(&mut agents, 0, &mut space, Vec2::new(0, 0), Vec2::new(0, 0));
    assert_eq!(r, Ok(Vec2::new(0, 0)));
}

#[test]
fn calculate_refuses_what_is_not_implemented() {
    let mut agents = pair();
    let before = agents.clone();
    let mut space = space_for(&agents);
    for method in [SummingMethod::weighted_average, SummingMethod::dithered] {
        agents[0].m_pSteering.m_SummingMethod = method;
        let r = SteeringBehavior::Calculate(&mut agents, 0, &mut space, Vec2::new(0, 0), Vec2::new(0, 0));
        assert_eq!(r, Err(SteeringError::SummingMethodNotImplemented));
        assert_eq!(agents[0].m_pSteering.m_vSteeringForce, Vec2::new(0, 0));
        assert!(!agents[1].tag);
    }
    agents[0].m_pSteering.m_SummingMethod = SummingMethod::prioritized;
    agents[0].m_pSteering.PursuitOn(1);
    let r = SteeringBehavior::Calculate(&mut agents, 0, &mut space, Vec2::new(0, 0), Vec2::new(0, 0));
    assert_eq!(r, Err(SteeringError::BehaviorNotImplemented));
    assert_eq!(agents[1].tag, before[1].tag);
    for bits in [0x2u32, 0x8, 0x100, 0x200, 0x400, 0x2000, 0x4000, 0x8000, 0x10000] {
        agents[0].m_pSteering.m_iFlags = 0x20 | bits;
        let r = SteeringBehavior::Calculate(&mut agents, 0, &mut space, Vec2::new(0, 0), Vec2::new(0, 0));
        assert_eq!(r, Err(SteeringError::BehaviorNotImplemented));
    }
    // both faults: the summing method is reported
    agents[0].m_pSteering.m_SummingMethod = SummingMethod::dithered;
    let r = SteeringBehavior::Calculate(&mut agents, 0, &mut space, Vec2::new(0, 0), Vec2::new(0, 0));
    assert_eq!(r, Err(SteeringError::SummingMethodNotImplemented));
    // every behaviour of the prioritized sum together is accepted
    agents[0].m_pSteering.m_SummingMethod = SummingMethod::prioritized;
    agents[0].m_pSteering.m_iFlags = 0x10F4;
    let r = SteeringBehavior::Calculate(&mut agents, 0, &mut space, Vec2::new(0, 0), Vec2::new(0, 0));
    assert!(r.is_ok());
}
