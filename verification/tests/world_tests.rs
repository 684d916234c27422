use flocking::configuration::ConfigLoader;
use flocking::game_world::{coordinate_from_share, GameWorld, Spawn};
use flocking::steering_behavior::{BehaviorType, SteeringBehavior, SteeringError, SummingMethod};
use flocking::vec2::Vec2;
use flocking::vehicle::Vehicle;

fn spawn(x: i64, y: i64) -> Spawn {
    Spawn { position: Vec2::new(x, y), heading: Vec2::new(1_000, 0), wander_target: Vec2::new(1_200, 0) }
}

fn world_of(spawns: Vec<Spawn>) -> GameWorld {
    GameWorld::seeded(600, 600, &ConfigLoader::new(), &spawns)
}

fn cells_of(world: &GameWorld, entity: usize) -> Vec<usize> {
    let mut found = Vec::new();
    for (c, cell) in world.m_pCellSpace.m_Cells.iter().enumerate() {
        for member in &cell.members {
            if *member == entity {
                found.push(c);
            }
        }
    }
    found
}

fn check_invariants(world: &GameWorld) {
    for (i, v) in world.m_Vehicles.iter().enumerate() {
        assert_eq!(v.id as usize, i);
        assert!(0 <= v.position.x && v.position.x < 600_000, "x of {}: {:?}", i, v.position);
        assert!(0 <= v.position.y && v.position.y < 600_000, "y of {}: {:?}", i, v.position);
        let speed_sq = v.velocity.length_squared();
        assert!(speed_sq <= (v.max_speed as u128) * (v.max_speed as u128));
        assert!(v.heading.length_squared() <= 1_000_000);
        assert!(v.side_vec.length_squared() <= 1_000_000);
        assert!(
            v.m_pSteering.m_vSteeringForce.length_squared()
                <= (v.max_force as u128) * (v.max_force as u128)
        );
        assert!(v.m_pSteering.m_vWanderTarget.length_squared() <= 1_200 * 1_200);
        assert_eq!(v.m_pSteering.m_bCellSpaceOn, world.m_bCellSpaceOn);
        if world.m_bCellSpaceOn {
            assert_eq!(cells_of(world, i), vec![world.m_pCellSpace.position_to_index(&v.position)]);
        }
    }
    if world.m_bCellSpaceOn {
        let members: usize = world.m_pCellSpace.m_Cells.iter().map(|c| c.members.len()).sum();
        assert_eq!(members, world.m_Vehicles.len());
    }
}

#[test]
fn the_standard_configuration() {
    let c = ConfigLoader::new();
    assert!(c.is_valid());
    assert_eq!(c.NumAgents, 250);
    assert_eq!((c.NumCellsX, c.NumCellsY), (7, 7));
    assert_eq!(c.NumSamplesForSmoothing, 10);
    assert_eq!(c.MaxSteeringForce, 400_000);
    assert_eq!(c.MaxSpeed, 80_000);
    assert_eq!(c.VehicleMass, 1_000);
    assert_eq!(c.CohesionWeight, 400_000);
    assert_eq!(c.ViewDistance, 50_000);
    let mut broken = c;
    broken.NumCellsX = 0;
    assert!(!broken.is_valid());
    let mut heavy = c;
    heavy.VehicleMass = 0;
    assert!(!heavy.is_valid());
    let mut many = c;
    many.NumAgents = 1_000_001;
    assert!(!many.is_valid());
    let mut wide = c;
    wide.NumCellsX = 65_536;
    wide.NumCellsY = 32_768;
    assert!(!wide.is_valid());
    wide.NumCellsY = 32_767;
    assert!(wide.is_valid());
}

#[test]
fn a_seeded_world_places_the_vehicles_and_fills_the_partition() {
    let world = world_of(vec![spawn(100_000, 200_000), spawn(599_999, 0), spawn(100_001, 200_001)]);
    assert_eq!(world.cxClient(), 600);
    assert_eq!(world.cyClient(), 600);
    assert_eq!(world.m_vCrosshair, Vec2::new(300_000, 300_000));
    assert!(world.m_bCellSpaceOn);
    assert_eq!(world.m_Vehicles.len(), 3);
    assert_eq!(world.m_HeadingSmoothers.len(), 3);
    let v = &world.m_Vehicles[1];
    assert_eq!(v.id, 1);
    assert_eq!(v.position, Vec2::new(599_999, 0));
    assert_eq!(v.velocity, Vec2::new(0, 0));
    assert_eq!(v.heading, Vec2::new(1_000, 0));
    assert_eq!(v.side_vec, Vec2::new(0, 1_000));
    assert_eq!((v.mass, v.max_speed, v.max_force), (1_000, 80_000, 400_000));
    assert_eq!(v.scale, Vec2::new(20_000, 20_000));
    assert_eq!(v.m_pSteering.m_iFlags, 0xF0);
    assert!(v.m_pSteering.m_bCellSpaceOn);
    assert!(v.m_bSmoothingOn);
    assert_eq!(world.m_pCellSpace.m_Cells[15].members, vec![0, 2]);
    assert_eq!(world.m_pCellSpace.m_Cells[6].members, vec![1]);
    assert_eq!(world.m_HeadingSmoothers[0].m_History, vec![Vec2::new(0, 0); 10]);
    check_invariants(&world);
}

#[test]
fn a_random_world_has_the_configured_population_inside_its_bounds() {
    let mut config = ConfigLoader::new();
    config.NumAgents = 400;
    let world = GameWorld::new(600, 300, &config);
    assert_eq!(world.m_Vehicles.len(), 400);
    assert!(world.m_bCellSpaceOn);
    let mut positions = std::collections::BTreeSet::new();
    let mut headings = std::collections::BTreeSet::new();
    for (i, v) in world.m_Vehicles.iter().enumerate() {
        assert_eq!(v.id as usize, i);
        assert!(0 <= v.position.x && v.position.x < 600_000);
        assert!(0 <= v.position.y && v.position.y < 300_000);
        assert!(v.heading.length_squared() <= 1_000_000);
        assert!(v.heading.length_squared() >= 990_000);
        assert!(v.m_pSteering.m_vWanderTarget.length_squared() <= 1_200 * 1_200);
        assert_eq!(v.m_pSteering.m_iFlags, 0xF0);
        assert_eq!(cells_of(&world, i), vec![world.m_pCellSpace.position_to_index(&v.position)]);
        positions.insert((v.position.x, v.position.y));
        headings.insert((v.heading.x, v.heading.y));
    }
    assert!(positions.len() > 300);
    assert!(headings.len() > 100);
}

#[test]
fn toggling_keeps_world_and_vehicles_in_step() {
    let mut world = world_of(vec![spawn(100_000, 200_000), spawn(500_000, 500_000)]);
    world.ToggleSpacePartition();
    assert!(!world.m_bCellSpaceOn);
    assert!(world.m_Vehicles.iter().all(|v| !v.m_pSteering.m_bCellSpaceOn));
    // while the partition is off it is not kept up to date
    world.m_Vehicles[0].position = Vec2::new(300_000, 300_000);
    world.ToggleSpacePartition();
    assert!(world.m_bCellSpaceOn);
    assert!(world.m_Vehicles.iter().all(|v| v.m_pSteering.m_bCellSpaceOn));
    assert_eq!(world.m_pCellSpace.m_Cells[24].members, vec![0]);
    assert_eq!(world.m_pCellSpace.m_Cells[15].members, Vec::<usize>::new());
    check_invariants(&world);
}

#[test]
fn tagging_through_the_world() {
    let mut world = world_of(vec![spawn(100_000, 100_000), spawn(103_000, 104_000), spawn(400_000, 100_000)]);
    world.TagVehiclesWithinViewRange(0, 50_000);
    let tags: Vec<bool> = world.m_Vehicles.iter().map(|v| v.tag).collect();
    assert_eq!(tags, vec![false, true, false]);
    world.TagVehiclesWithinViewRange(2, 400_000);
    let tags: Vec<bool> = world.m_Vehicles.iter().map(|v| v.tag).collect();
    assert_eq!(tags, vec![true, true, false]);
}

fn lone_vehicle(x: i64, y: i64, velocity: Vec2) -> Vehicle {
    let steering = SteeringBehavior::from_config(&ConfigLoader::new(), Vec2::new(1_200, 0));
    let mut v = Vehicle::new(0, Vec2::new(x, y), Vec2::new(1_000, 0), velocity, 1_000, 400_000, 80_000, 3_142, 20_000, steering);
    v.m_dTimeElapsed = 1_000;
    v
}

#[test]
fn a_vehicle_leaving_by_one_edge_enters_by_the_opposite() {
    // one unit from the right edge, ten units a second, for one second
    let mut v = lone_vehicle(599_000, 300_000, Vec2::new(10_000, 0));
    v.integrate(Vec2::new(0, 0), 600, 600);
    assert_eq!(v.position, Vec2::new(9_000, 300_000));
    assert_eq!(v.velocity, Vec2::new(10_000, 0));
    let mut left = lone_vehicle(1_000, 300_000, Vec2::new(-10_000, 0));
    left.integrate(Vec2::new(0, 0), 600, 600);
    assert_eq!(left.position, Vec2::new(591_000, 300_000));
    assert_eq!(left.heading, Vec2::new(-1_000, 0));
    let mut down = lone_vehicle(300_000, 599_000, Vec2::new(0, 10_000));
    down.integrate(Vec2::new(0, 0), 600, 600);
    assert_eq!(down.position, Vec2::new(300_000, 9_000));
    let mut up = lone_vehicle(300_000, 1_000, Vec2::new(0, -10_000));
    up.integrate(Vec2::new(0, 0), 600, 600);
    assert_eq!(up.position, Vec2::new(300_000, 591_000));
    // exactly onto the edge is the opposite edge
    let mut edge = lone_vehicle(590_000, 0, Vec2::new(10_000, 0));
    edge.integrate(Vec2::new(0, 0), 600, 600);
    assert_eq!(edge.position, Vec2::new(0, 0));
}

#[test]
fn integration_follows_force_mass_and_time() {
    let mut v = lone_vehicle(100_000, 100_000, Vec2::new(0, 0));
    v.m_dTimeElapsed = 17;
    // acceleration (300, 400), velocity after 0.017 s: (5.1, 6.8)
    v.integrate(Vec2::new(300_000, 400_000), 600, 600);
    assert_eq!(v.velocity, Vec2::new(5_100, 6_800));
    assert_eq!(v.position, Vec2::new(100_086, 100_115));
    assert_eq!(v.heading, Vec2::new(600, 800));
    assert_eq!(v.side_vec, Vec2::new(-800, 600));
    // twice the mass, half the acceleration; the velocity is cut to the limit
    let mut heavy = lone_vehicle(100_000, 100_000, Vec2::new(60_000, 0));
    heavy.mass = 2_000;
    heavy.integrate(Vec2::new(400_000, 0), 600, 600);
    assert_eq!(heavy.velocity, Vec2::new(80_000, 0));
    assert_eq!(heavy.position, Vec2::new(180_000, 100_000));
}

#[test]
fn a_vehicle_at_rest_keeps_its_heading() {
    let mut v = lone_vehicle(100_000, 100_000, Vec2::new(0, 0));
    v.heading = Vec2::new(0, -1_000);
    v.side_vec = Vec2::new(1_000, 0);
    v.integrate(Vec2::new(0, 0), 600, 600);
    assert_eq!(v.position, Vec2::new(100_000, 100_000));
    assert_eq!(v.heading, Vec2::new(0, -1_000));
    assert_eq!(v.side_vec, Vec2::new(1_000, 0));
}

#[test]
fn the_velocity_never_exceeds_the_speed_limit() {
    let mut state = 4242u64;
    let mut draw = |bound: i64| {
        state = state.wrapping_mul(6364136223846793005).wrapping_add(1442695040888963407);
        ((state >> 33) as i64) % (2 * bound) - bound
    };
    let mut v = lone_vehicle(300_000, 300_000, Vec2::new(0, 0));
    for _ in 0..500 {
        v.m_dTimeElapsed = draw(500).abs();
        let force = Vec2::new(draw(280_000), draw(280_000));
        v.integrate(force, 600, 600);
        assert!(v.velocity.length_squared() <= 80_000u128 * 80_000u128);
        assert!(v.velocity.length() <= 80_000);
        assert!(0 <= v.position.x && v.position.x < 600_000);
        assert!(0 <= v.position.y && v.position.y < 600_000);
    }
}

#[test]
fn an_update_moves_a_pair_towards_each_other() {
    let mut world = world_of(vec![spawn(100_000, 100_000), spawn(103_000, 104_000)]);
    for v in world.m_Vehicles.iter_mut() {
        v.m_pSteering.FlockingOff();
        v.m_pSteering.CohesionOn();
    }
    let jitters = vec![Vec2::new(0, 0); 2];
    assert_eq!(world.UpdateWith(100, &jitters), Ok(()));
    // the first is pulled with the full force of 400 towards the second:
    // velocity (24, 32) after 0.1 s, 2.4 and 3.2 units further on
    assert_eq!(world.m_Vehicles[0].m_pSteering.m_vSteeringForce, Vec2::new(240_000, 320_000));
    assert_eq!(world.m_Vehicles[0].velocity, Vec2::new(24_000, 32_000));
    assert_eq!(world.m_Vehicles[0].position, Vec2::new(102_400, 103_200));
    assert_eq!(world.m_Vehicles[0].heading, Vec2::new(600, 800));
    // the second sees the first where it has moved to
    assert_eq!(world.m_Vehicles[1].m_pSteering.m_vSteeringForce, Vec2::new(-240_000, -320_000));
    assert_eq!(world.m_Vehicles[1].position, Vec2::new(100_600, 100_800));
    assert_eq!(world.m_dAvFrameTime, 100);
    // the smoothed heading is the mean of ten samples, nine of them zero
    assert_eq!(world.m_Vehicles[0].m_vSmoothedHeading, Vec2::new(60, 80));
    assert_eq!(world.m_HeadingSmoothers[0].m_iNextUpdateSlot, 1);
    check_invariants(&world);
}

#[test]
fn both_ways_of_finding_neighbours_move_the_world_alike() {
    let spawns: Vec<Spawn> = (0..40)
        .map(|i| Spawn {
            position: Vec2::new(200_000 + (i * 7_919) % 90_000, 200_000 + (i * 104_729) % 90_000),
            heading: Vec2::new(600, -800),
            wander_target: Vec2::new(0, 1_200),
        })
        .collect();
    let mut with_partition = world_of(spawns.clone());
    let mut with_tags = world_of(spawns);
    with_tags.ToggleSpacePartition();
    let jitters: Vec<Vec2> = (0..40).map(|i| Vec2::new((i * 37) % 2_001 - 1_000, (i * 91) % 2_001 - 1_000)).collect();
    for _ in 0..30 {
        assert_eq!(with_partition.UpdateWith(17, &jitters), Ok(()));
        assert_eq!(with_tags.UpdateWith(17, &jitters), Ok(()));
        for (a, b) in with_partition.m_Vehicles.iter().zip(with_tags.m_Vehicles.iter()) {
            assert_eq!(a.position, b.position);
            assert_eq!(a.velocity, b.velocity);
            assert_eq!(a.heading, b.heading);
            assert_eq!(a.m_pSteering.m_vSteeringForce, b.m_pSteering.m_vSteeringForce);
        }
    }
    check_invariants(&with_partition);
    check_invariants(&with_tags);
}

#[test]
fn a_time_step_of_zero_or_less_moves_nobody() {
    let mut world = world_of(vec![spawn(100_000, 100_000), spawn(103_000, 104_000), spawn(500_000, 20_000)]);
    assert_eq!(world.UpdateWith(50, &vec![Vec2::new(300, -700); 3]), Ok(()));
    let before: Vec<(Vec2, Vec2)> = world.m_Vehicles.iter().map(|v| (v.position, v.velocity)).collect();
    for dt in [0, -1, -17, i64::MIN] {
        assert_eq!(world.UpdateWith(dt, &vec![Vec2::new(1_000, 1_000); 3]), Ok(()));
        let after: Vec<(Vec2, Vec2)> = world.m_Vehicles.iter().map(|v| (v.position, v.velocity)).collect();
        assert_eq!(before, after);
        assert!(world.m_Vehicles.iter().all(|v| v.m_dTimeElapsed == 0));
        assert_eq!(world.m_dAvFrameTime, dt);
    }
    check_invariants(&world);
}

#[test]
fn an_update_fails_as_a_whole_if_one_vehicle_cannot_be_steered() {
    let mut world = world_of(vec![spawn(100_000, 100_000), spawn(103_000, 104_000), spawn(105_000, 104_000)]);
    world.m_Vehicles[2].m_pSteering.PursuitOn(0);
    let before: Vec<Vec2> = world.m_Vehicles.iter().map(|v| v.position).collect();
    assert_eq!(world.UpdateWith(100, &vec![Vec2::new(0, 0); 3]), Err(SteeringError::BehaviorNotImplemented));
    assert_eq!(world.Update(100), Err(SteeringError::BehaviorNotImplemented));
    let after: Vec<Vec2> = world.m_Vehicles.iter().map(|v| v.position).collect();
    assert_eq!(before, after);
    assert_eq!(world.m_dAvFrameTime, 0);
    // the first fault in population order is the one reported
    world.m_Vehicles[1].m_pSteering.m_SummingMethod = SummingMethod::weighted_average;
    assert_eq!(world.UpdateWith(100, &vec![Vec2::new(0, 0); 3]), Err(SteeringError::SummingMethodNotImplemented));
    world.m_Vehicles[1].m_pSteering.m_SummingMethod = SummingMethod::prioritized;
    world.m_Vehicles[2].m_pSteering.m_iFlags &= !BehaviorType::pursuit.bits();
    assert_eq!(world.UpdateWith(100, &vec![Vec2::new(0, 0); 3]), Ok(()));
}

#[test]
fn a_shark_among_the_flock() {
    let spawns: Vec<Spawn> = (0..30)
        .map(|i| spawn(250_000 + (i * 7_919) % 100_000, 250_000 + (i * 104_729) % 100_000))
        .collect();
    let mut world = world_of(spawns);
    world.m_Vehicles[0].m_pSteering.FlockingOff();
    world.m_Vehicles[0].m_pSteering.WanderOn();
    world.m_Vehicles[0].max_speed = 70_000;
    for i in 1..30 {
        world.m_Vehicles[i].m_pSteering.EvadeOn(0);
    }
    for _ in 0..200 {
        assert_eq!(world.Update(17), Ok(()));
        check_invariants(&world);
    }
    assert!(world.m_Vehicles.iter().any(|v| v.velocity != Vec2::new(0, 0)));
}

#[test]
fn a_thousand_frames_of_the_standard_population() {
    let config = ConfigLoader::new();
    let mut world = GameWorld::new(600, 600, &config);
    assert_eq!(world.m_Vehicles.len(), 250);
    let start: Vec<Vec2> = world.m_Vehicles.iter().map(|v| v.position).collect();
    for _ in 0..1_000 {
        assert_eq!(world.Update(17), Ok(()));
    }
    check_invariants(&world);
    let end: Vec<Vec2> = world.m_Vehicles.iter().map(|v| v.position).collect();
    assert_ne!(start, end);
    for (i, smoother) in world.m_HeadingSmoothers.iter().enumerate() {
        assert_eq!(smoother.m_History.len(), 10);
        assert_eq!(smoother.m_iNextUpdateSlot, 0);
        assert!(world.m_Vehicles[i].m_vSmoothedHeading.length_squared() <= 1_000_000);
    }
}

#[test]
fn the_invariant_of_a_world_can_be_checked() {
    let mut world = world_of(vec![spawn(100_000, 200_000), spawn(599_999, 0), spawn(100_001, 200_001)]);
    assert!(world.is_wf());
    assert_eq!(world.UpdateWith(17, &vec![Vec2::new(0, 0); 3]), Ok(()));
    assert!(world.is_wf());
    // a vehicle moved behind the partition's back
    let kept = world.m_Vehicles[0].position;
    world.m_Vehicles[0].position = Vec2::new(500_000, 500_000);
    assert!(!world.is_wf());
    world.m_Vehicles[0].position = kept;
    assert!(world.is_wf());
    // a vehicle listed twice
    let cell = world.m_pCellSpace.position_to_index(&kept);
    world.m_pCellSpace.m_Cells[cell].members.push(0);
    assert!(!world.is_wf());
    world.m_pCellSpace.m_Cells[cell].members.pop();
    assert!(world.is_wf());
    // a vehicle outside the world
    let inside = world.m_Vehicles[1].position;
    world.m_Vehicles[1].position = Vec2::new(600_000, inside.y);
    assert!(!world.is_wf());
    world.m_Vehicles[1].position = inside;
    assert!(world.is_wf());
    // flags out of step
    world.m_Vehicles[2].m_pSteering.m_bCellSpaceOn = false;
    assert!(!world.is_wf());
    world.m_Vehicles[2].m_pSteering.m_bCellSpaceOn = true;
    // a target that does not exist
    world.m_Vehicles[2].m_pSteering.EvadeOn(3);
    assert!(!world.is_wf());
    world.m_Vehicles[2].m_pSteering.EvadeOn(0);
    assert!(world.is_wf());
    // a box out of place
    world.m_pCellSpace.m_Cells[3].bounding_box.m_vTopLeft.x += 1;
    assert!(!world.is_wf());
    world.m_pCellSpace.m_Cells[3].bounding_box.m_vTopLeft.x -= 1;
    world.m_vCrosshair = Vec2::new(i64::MAX, 0);
    assert!(!world.is_wf());
}

#[test]
fn spawns_are_checked_against_the_world() {
    assert!(spawn(0, 0).is_valid(600, 600));
    assert!(spawn(599_999, 599_999).is_valid(600, 600));
    assert!(!spawn(600_000, 0).is_valid(600, 600));
    assert!(!spawn(0, -1).is_valid(600, 600));
    let mut s = spawn(1, 1);
    s.heading = Vec2::new(800, 601);
    assert!(!s.is_valid(600, 600));
    s.heading = Vec2::new(800, 600);
    s.wander_target = Vec2::new(0, 1_201);
    assert!(!s.is_valid(600, 600));
    s.wander_target = Vec2::new(0, 0);
    assert!(s.is_valid(600, 600));
}

#[test]
fn a_share_of_half_the_width_gives_a_coordinate() {
    assert_eq!(coordinate_from_share(600, 0), 300_000);
    assert_eq!(coordinate_from_share(600, 500), 450_000);
    assert_eq!(coordinate_from_share(600, -500), 150_000);
    assert_eq!(coordinate_from_share(600, -1_000), 0);
    assert_eq!(coordinate_from_share(600, 999), 599_700);
    // the right edge itself wraps around to the left edge
    assert_eq!(coordinate_from_share(600, 1_000), 0);
    // the share of half the width is rounded toward zero
    assert_eq!(coordinate_from_share(1, 1), 500);
    assert_eq!(coordinate_from_share(1, -1), 500);
    assert_eq!(coordinate_from_share(1, 2), 501);
    assert_eq!(coordinate_from_share(1, -2), 499);
    assert_eq!(coordinate_from_share(i32::MAX, -1_000), 0);
    assert_eq!(coordinate_from_share(i32::MAX, 1), 1_073_741_823_500 + 1_073_741_823);
    for share in -1_000..=1_000 {
        let x = coordinate_from_share(7, share);
        assert!(0 <= x && x < 7_000);
    }
}
