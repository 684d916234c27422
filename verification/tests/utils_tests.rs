use flocking::utils::{max, min, RandBool, RandFloat, RandInRange, RandInt, RandomClamped, Truncate,
    WrapAround, wrap_coordinate};
use flocking::vec2::Vec2;

#[test]
pub fn test_truncate() {
    let mut v = Vec2::new(100_000, 100_000);
    println!("length: {}", v.length());
    assert_eq!(v.length(), 141_422);

    v = Truncate(v, 5_000);
    println!("vec: {:?}  length: {}", v, v.length());
    assert_eq!(v, Vec2::new(3_535, 3_535));
    assert!(v.length() <= 5_000);
}

#[test]
pub fn test_wraparound() {
    let mut v = Vec2::new(10_000, 10_000);
    WrapAround(&mut v, 8, 8);
    println!("{:?}", v);
    assert_eq!(v, Vec2::new(2_000, 2_000));
    let mut v = Vec2::new(10_000, 10_000);
    WrapAround(&mut v, 10, 11);
    println!("{:?}", v);
    assert_eq!(v, Vec2::new(0, 10_000));
}

#[test]
fn truncate_keeps_a_short_vector() {
    let v = Vec2::new(3_000, 4_000);
    assert_eq!(Truncate(v, 5_000), v);
    assert_eq!(Truncate(v, 6_000), v);
    assert_eq!(Truncate(Vec2::new(0, 0), 0), Vec2::new(0, 0));
}

#[test]
fn truncate_cuts_to_the_cap() {
    // (6, 8) has length 10; cut to 5 it becomes (3, 4)
    assert_eq!(Truncate(Vec2::new(6_000, 8_000), 5_000), Vec2::new(3_000, 4_000));
    assert_eq!(Truncate(Vec2::new(-6_000, 8_000), 5_000), Vec2::new(-3_000, 4_000));
    assert_eq!(Truncate(Vec2::new(6_000, 8_000), 0), Vec2::new(0, 0));
}

#[test]
fn wrap_brings_every_coordinate_into_the_world() {
    assert_eq!(wrap_coordinate(0, 8_000), 0);
    assert_eq!(wrap_coordinate(7_999, 8_000), 7_999);
    assert_eq!(wrap_coordinate(8_000, 8_000), 0);
    assert_eq!(wrap_coordinate(8_001, 8_000), 1);
    assert_eq!(wrap_coordinate(-1, 8_000), 7_999);
    assert_eq!(wrap_coordinate(-8_000, 8_000), 0);
    assert_eq!(wrap_coordinate(-8_001, 8_000), 7_999);
    assert_eq!(wrap_coordinate(24_500, 8_000), 500);
    assert_eq!(wrap_coordinate(i64::MIN, 8_000), 192);
    assert_eq!(wrap_coordinate(i64::MAX, 8_000), 7_807);
}

#[test]
fn wrap_around_all_four_edges() {
    let mut right = Vec2::new(609_000, 300_000);
    WrapAround(&mut right, 600, 600);
    assert_eq!(right, Vec2::new(9_000, 300_000));
    let mut left = Vec2::new(-1_000, 300_000);
    WrapAround(&mut left, 600, 600);
    assert_eq!(left, Vec2::new(599_000, 300_000));
    let mut bottom = Vec2::new(300_000, 600_500);
    WrapAround(&mut bottom, 600, 600);
    assert_eq!(bottom, Vec2::new(300_000, 500));
    let mut top = Vec2::new(300_000, -500);
    WrapAround(&mut top, 600, 600);
    assert_eq!(top, Vec2::new(300_000, 599_500));
}

#[test]
fn min_and_max_pick_as_documented() {
    assert_eq!(min(3, 5), 3);
    assert_eq!(min(5, 3), 3);
    assert_eq!(max(3, 5), 5);
    assert_eq!(max(5, 3), 5);
    assert_eq!(min(-7i64, -7i64), -7);
    assert_eq!(max("a", "b"), "b");
    // with equal keys the second argument is returned
    assert_eq!(min((1, "first"), (1, "first")), (1, "first"));
    assert_eq!(min(2u8, 2u8), 2);
}

#[test]
fn random_draws_stay_in_range() {
    for _ in 0..2_000 {
        let i = RandInt(-3, 4);
        assert!((-3..=4).contains(&i));
        let f = RandFloat();
        assert!((0..=1_000).contains(&f));
        let r = RandInRange(50, 300);
        assert!((50..=300).contains(&r));
        let c = RandomClamped();
        assert!((-1_000..=1_000).contains(&c));
    }
    assert_eq!(RandInt(7, 7), 7);
    assert_eq!(RandInRange(-5, -5), -5);
}

#[test]
fn random_draws_vary() {
    let mut low = 0;
    let mut high = 0;
    let mut distinct = std::collections::BTreeSet::new();
    for _ in 0..500 {
        let r = RandInRange(0, 1_000_000);
        if r == 0 {
            low += 1;
        }
        if r == 1_000_000 {
            high += 1;
        }
        distinct.insert(r);
    }
    assert!(low < 500 && high < 500);
    assert!(distinct.len() > 100);
    let mut yes = 0;
    for _ in 0..500 {
        if RandBool() {
            yes += 1;
        }
    }
    assert!(yes > 0 && yes < 500);
}
