use flocking::base_entity::BaseEntity;
use flocking::c2d_matrix::C2DMatrix;
use flocking::configuration::ConfigLoader;
use flocking::entity_traits::{EntityBase, EntityMovable, EntityType};
use flocking::moving_entity::MovingEntity;
use flocking::steering_behavior::SteeringBehavior;
use flocking::vec2::Vec2;
use flocking::vehicle::Vehicle;

fn vehicle() -> Vehicle {
    let steering = SteeringBehavior::from_config(&ConfigLoader::new(), Vec2::new(0, -1_200));
    Vehicle::new(
        7,
        Vec2::new(10_000, 20_000),
        Vec2::new(600, 800),
        Vec2::new(3_000, -4_000),
        1_500,
        400_000,
        80_000,
        3_142,
        20_000,
        steering,
    )
}

#[test]
fn the_default_entity_type_is_minus_one() {
    assert_eq!(EntityType::default_entity_type.value(), -1);
}

#[test]
fn a_new_vehicle_holds_what_it_was_given() {
    let v = vehicle();
    assert!(v.is_wf());
    assert_eq!(v.id(), 7);
    assert_eq!(v.entity_type(), 0);
    assert_eq!(v.position(), Vec2::new(10_000, 20_000));
    assert_eq!(v.heading(), Vec2::new(600, 800));
    assert_eq!(v.side(), Vec2::new(-800, 600));
    assert_eq!(v.velocity(), Vec2::new(3_000, -4_000));
    assert_eq!(v.speed(), 5_000);
    assert_eq!(v.mass(), 1_500);
    assert_eq!(v.max_force(), 400_000);
    assert_eq!(v.max_speed(), 80_000);
    assert_eq!(v.max_turn_rate, 3_142);
    assert_eq!(v.scale(), Vec2::new(20_000, 20_000));
    assert_eq!(v.bounding_radius(), 0);
    assert!(!v.is_tagged());
    assert!(v.m_bSmoothingOn);
    assert_eq!(v.SmoothedHeading(), Vec2::new(0, 0));
    assert_eq!(v.m_pSteering.m_vWanderTarget, Vec2::new(0, -1_200));
}

#[test]
fn a_vehicle_is_tagged_scaled_and_limited() {
    let mut v = vehicle();
    v.tag();
    assert!(v.is_tagged());
    v.untag();
    assert!(!v.is_tagged());
    v.set_scale_vec(Vec2::new(10_000, 12_000));
    assert_eq!(v.scale(), Vec2::new(10_000, 12_000));
    assert_eq!(v.bounding_radius(), 0);
    v.set_scale_float(3_000);
    assert_eq!(v.scale(), Vec2::new(3_000, 3_000));
    v.set_max_speed(70_000);
    assert_eq!(v.max_speed(), 70_000);
    assert_eq!(v.velocity(), Vec2::new(3_000, -4_000));
    assert!(v.is_wf());
    v.set_max_speed(5_000);
    assert!(v.is_wf());
}

#[test]
fn a_vehicle_out_of_its_limits_is_not_well_formed() {
    assert!(vehicle().is_wf());
    let mut fast = vehicle();
    fast.velocity = Vec2::new(80_000, 1);
    assert!(!fast.is_wf());
    let mut massless = vehicle();
    massless.mass = 0;
    assert!(!massless.is_wf());
    let mut long_heading = vehicle();
    long_heading.heading = Vec2::new(1_000, 1);
    assert!(!long_heading.is_wf());
    let mut far = vehicle();
    far.position = Vec2::new(4_000_000_000_001, 0);
    assert!(!far.is_wf());
    let mut hasty = vehicle();
    hasty.m_dTimeElapsed = 1_000_001;
    assert!(!hasty.is_wf());
    let mut untargeted = vehicle();
    untargeted.m_pSteering.m_iFlags = 0x1000;
    assert!(!untargeted.is_wf());
    untargeted.m_pSteering.m_pTargetAgent1 = Some(3);
    assert!(untargeted.is_wf());
    let mut astray = vehicle();
    astray.m_pSteering.m_vWanderTarget = Vec2::new(1_200, 1);
    assert!(!astray.is_wf());
    let mut heavy_weight = vehicle();
    heavy_weight.m_pSteering.m_dWeightCohesion = 10_000_001;
    assert!(!heavy_weight.is_wf());
}

#[test]
fn a_base_entity_lets_its_radius_follow_its_scale() {
    let mut e = BaseEntity::new(3, EntityType::default_entity_type.value(), Vec2::new(1, 2), Vec2::new(0, 1_000), 10_000);
    assert_eq!(e.id(), 3);
    assert_eq!(e.entity_type(), -1);
    assert_eq!(e.position(), Vec2::new(1, 2));
    assert_eq!(e.heading(), Vec2::new(0, 1_000));
    assert_eq!(e.side_vec, Vec2::new(-1_000, 0));
    assert_eq!(e.scale(), Vec2::new(0, 0));
    assert_eq!(e.bounding_radius(), 10_000);
    assert!(!e.is_tagged());
    // from the scale zero the radius does not follow
    e.set_scale_vec(Vec2::new(2_000, 1_000));
    assert_eq!(e.scale(), Vec2::new(2_000, 1_000));
    assert_eq!(e.bounding_radius(), 10_000);
    // from 2 to 3: one and a half times the radius
    e.set_scale_vec(Vec2::new(3_000, 500));
    assert_eq!(e.bounding_radius(), 15_000);
    e.set_scale_float(1_000);
    assert_eq!(e.scale(), Vec2::new(1_000, 1_000));
    assert_eq!(e.bounding_radius(), 4_995);
    e.tag();
    assert!(e.is_tagged());
    e.untag();
    assert!(!e.is_tagged());
    e.set_entity_type(5);
    assert_eq!(e.entity_type(), 5);
    assert_eq!(e.id(), 3);
}

#[test]
fn a_moving_entity_reports_its_motion() {
    let m = MovingEntity::new(Vec2::new(-6_000, 8_000), 80_000, 1_000, 3_142, 400_000);
    assert_eq!(m.MaxForce(), 400_000);
    assert_eq!(m.MaxSpeed(), 80_000);
    assert_eq!(m.Velocity(), Vec2::new(-6_000, 8_000));
    assert_eq!(m.Speed(), 10_000);
    assert_eq!(m.mass, 1_000);
    assert_eq!(m.max_turn_rate, 3_142);
}

#[test]
fn matrices_rotate_and_translate() {
    let identity = C2DMatrix::identity();
    assert_eq!(identity.TransformVector2Ds(Vec2::new(7, -9)), Vec2::new(7, -9));
    assert_eq!(identity.MatrixMultiply(identity), identity);
    let moved = identity.Translate(5_000, -2_000);
    assert_eq!(moved.TransformVector2Ds(Vec2::new(1_000, 1_000)), Vec2::new(6_000, -1_000));
    let turned = identity.Rotate(Vec2::new(0, 1_000), Vec2::new(-1_000, 0));
    assert_eq!(turned.TransformVector2Ds(Vec2::new(2_000, 1_000)), Vec2::new(-1_000, 2_000));
    // first the rotation, then the translation
    let both = turned.Translate(10_000, 20_000);
    assert_eq!(both.TransformVector2Ds(Vec2::new(2_000, 1_000)), Vec2::new(9_000, 22_000));
    assert_eq!(
        both,
        C2DMatrix {
            _11: 0,
            _12: 1_000,
            _13: 0,
            _21: -1_000,
            _22: 0,
            _23: 0,
            _31: 10_000,
            _32: 20_000,
            _33: 1_000
        }
    );
    // a product with rounding: 0.5 * 0.003 rounds to 0.001
    let half = C2DMatrix { _11: 500, _12: 0, _13: 0, _21: 0, _22: 500, _23: 0, _31: 0, _32: 0, _33: 1_000 };
    let tiny = C2DMatrix { _11: 3, _12: 0, _13: 0, _21: 0, _22: -3, _23: 0, _31: 0, _32: 0, _33: 1_000 };
    let product = half.MatrixMultiply(tiny);
    assert_eq!((product._11, product._22, product._33), (1, -1, 1_000));
}
