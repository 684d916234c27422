use flocking::fixed::{ceil_sqrt_u128, ceil_sqrt_u64, div_fixed, div_floor, div_toward_zero, mul_fixed,
    SCALE};
use flocking::vec2::Vec2;

#[test]
fn scale_is_one_thousand() {
    assert_eq!(SCALE, 1_000);
}

#[test]
fn division_rounds_toward_zero_or_down() {
    assert_eq!(div_toward_zero(7, 2), 3);
    assert_eq!(div_toward_zero(-7, 2), -3);
    assert_eq!(div_toward_zero(0, 5), 0);
    assert_eq!(div_floor(7, 2), 3);
    assert_eq!(div_floor(-7, 2), -4);
    assert_eq!(div_floor(-8, 2), -4);
    assert_eq!(div_floor(-1, 1_000), -1);
}

#[test]
fn fixed_point_products_and_quotients() {
    // 1.5 * 2.5 = 3.75
    assert_eq!(mul_fixed(1_500, 2_500), 3_750);
    assert_eq!(mul_fixed(-1_500, 2_500), -3_750);
    // 0.001 * 0.001 rounds to zero
    assert_eq!(mul_fixed(1, 1), 0);
    assert_eq!(mul_fixed(-1, 999), 0);
    // 1 / 3 = 0.333
    assert_eq!(div_fixed(1_000, 3_000), 333);
    assert_eq!(div_fixed(-1_000, 3_000), -333);
    assert_eq!(div_fixed(5_000, 1), 5_000_000);
}

#[test]
fn square_roots_round_up() {
    assert_eq!(ceil_sqrt_u128(0), 0);
    assert_eq!(ceil_sqrt_u128(1), 1);
    assert_eq!(ceil_sqrt_u128(2), 2);
    assert_eq!(ceil_sqrt_u128(4), 2);
    assert_eq!(ceil_sqrt_u128(5), 3);
    assert_eq!(ceil_sqrt_u128(25_000_000), 5_000);
    assert_eq!(ceil_sqrt_u128(25_000_001), 5_001);
    assert_eq!(ceil_sqrt_u128(u128::MAX), 1u128 << 64);
    assert_eq!(ceil_sqrt_u128(u64::MAX as u128), 1u128 << 32);
    assert_eq!(ceil_sqrt_u128(u64::MAX as u128 + 1), 1u128 << 32);
    assert_eq!(ceil_sqrt_u128(u64::MAX as u128 + 2), (1u128 << 32) + 1);
    assert_eq!(ceil_sqrt_u64(u64::MAX), 1u64 << 32);
    assert_eq!(ceil_sqrt_u64(17), 5);
    for n in 0..2_000u64 {
        let r = ceil_sqrt_u64(n);
        assert!(r * r >= n && (r == 0 || (r - 1) * (r - 1) < n));
    }
    assert_eq!(ceil_sqrt_u128((1u128 << 126) + 1), (1u128 << 63) + 1);
}

#[test]
fn vector_arithmetic() {
    let a = Vec2::new(3_000, -4_000);
    let b = Vec2::new(500, 250);
    assert_eq!(a.plus(b), Vec2::new(3_500, -3_750));
    assert_eq!(a.minus(b), Vec2::new(2_500, -4_250));
    assert_eq!(a.scale(2_000), Vec2::new(6_000, -8_000));
    assert_eq!(a.scale(-500), Vec2::new(-1_500, 2_000));
    assert_eq!(a.div(2_000), Vec2::new(1_500, -2_000));
    assert_eq!(a.perp(), Vec2::new(4_000, 3_000));
    assert_eq!(a.length_squared(), 25_000_000);
    assert_eq!(a.length(), 5_000);
    assert_eq!(a.distance_squared(b), 2_500 * 2_500 + 4_250 * 4_250);
    assert_eq!(Vec2::zero(), Vec2::new(0, 0));
    assert_eq!(a.rescale(1, 5_000), Vec2::new(0, 0));
    assert_eq!(a.rescale(10_000, 5_000), Vec2::new(6_000, -8_000));
}

#[test]
fn normalizing_gives_a_unit_vector_or_zero() {
    assert_eq!(Vec2::new(3_000, -4_000).normalize_or_zero(), Vec2::new(600, -800));
    assert_eq!(Vec2::new(0, 0).normalize_or_zero(), Vec2::new(0, 0));
    assert_eq!(Vec2::new(0, 7).normalize_or_zero(), Vec2::new(0, 1_000));
    assert_eq!(Vec2::new(-1, 0).normalize_or_zero(), Vec2::new(-1_000, 0));
    // even the shortest vectors keep their direction
    assert_eq!(Vec2::new(1, 1).normalize_or_zero(), Vec2::new(706, 706));
    assert_eq!(Vec2::new(1, -2).normalize_or_zero(), Vec2::new(447, -894));
    assert_eq!(Vec2::new(-3, 4).normalize_or_zero(), Vec2::new(-600, 800));
    // beyond the precise range the length is rounded up to a whole step
    let reach = 1i64 << 50;
    assert_eq!(Vec2::new(reach, reach).normalize_or_zero(), Vec2::new(707, 707));
    assert_eq!(Vec2::new(reach + 1, 0).normalize_or_zero(), Vec2::new(1_000, 0));
    assert_eq!(Vec2::new(3 * reach, -4 * reach).normalize_or_zero(), Vec2::new(600, -800));
    let extreme = Vec2::new(i64::MIN, i64::MAX).normalize_or_zero();
    assert!(extreme.length_squared() <= 1_000_000);
    assert_eq!(extreme, Vec2::new(-707, 707));
}

#[test]
fn length_rounds_up() {
    assert_eq!(Vec2::new(1, 1).length(), 2);
    assert_eq!(Vec2::new(1_000, 1_000).length(), 1_415);
    assert_eq!(Vec2::new(0, 0).length(), 0);
    assert_eq!(Vec2::new(0, -9).length(), 9);
}
