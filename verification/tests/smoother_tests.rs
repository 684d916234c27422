use flocking::smoother::{Sample, Smoother};
use flocking::vec2::Vec2;

#[test]
fn a_fresh_smoother_holds_the_zero_value() {
    let s = Smoother::new(4, Vec2::new(0, 0));
    assert_eq!(s.m_History, vec![Vec2::new(0, 0); 4]);
    assert_eq!(s.m_iNextUpdateSlot, 0);
    assert_eq!(s.m_ZeroValue, Vec2::new(0, 0));
}

#[test]
fn update_returns_the_mean_of_the_history() {
    let mut s = Smoother::new(4, 0i64);
    assert_eq!(s.update(8), 2);
    assert_eq!(s.update(8), 4);
    assert_eq!(s.update(-4), 3);
    assert_eq!(s.update(0), 3);
    // the oldest sample, the first 8, is overwritten
    assert_eq!(s.update(0), 1);
    assert_eq!(s.m_History, vec![0, 8, -4, 0]);
    assert_eq!(s.m_iNextUpdateSlot, 1);
}

#[test]
fn a_constant_input_is_reached_on_the_last_slot() {
    let v = Vec2::new(600, -800);
    let n = 10;
    let mut s = Smoother::new(n, Vec2::new(0, 0));
    for k in 1..n {
        let average = s.update(v);
        assert_eq!(average, Vec2::new(600 * k as i64 / 10, -(800 * k as i64 / 10)));
        assert_ne!(average, v);
    }
    assert_eq!(s.update(v), v);
    assert_eq!(s.update(v), v);
    let mut scalar = Smoother::new(3, 0i64);
    scalar.update(-7);
    scalar.update(-7);
    assert_eq!(scalar.update(-7), -7);
}

#[test]
fn one_slot_returns_the_latest_value() {
    let mut s = Smoother::new(1, 5i64);
    assert_eq!(s.update(9), 9);
    assert_eq!(s.update(i64::MIN), i64::MIN);
    assert_eq!(s.update(i64::MAX), i64::MAX);
}

#[test]
fn the_mean_rounds_toward_zero_and_cannot_overflow() {
    assert_eq!(i64::mean_of(&vec![1, 2]), 1);
    assert_eq!(i64::mean_of(&vec![-1, -2]), -1);
    assert_eq!(i64::mean_of(&vec![i64::MAX, i64::MAX, i64::MAX]), i64::MAX);
    assert_eq!(i64::mean_of(&vec![i64::MIN, i64::MIN]), i64::MIN);
    assert_eq!(
        Vec2::mean_of(&vec![Vec2::new(1, -1), Vec2::new(2, -2)]),
        Vec2::new(1, -1)
    );
}

#[test]
fn a_smoother_without_samples_is_rejected() {
    assert!(Smoother::try_new(0, 0i64).is_none());
    assert!(Smoother::try_new(-3, Vec2::new(0, 0)).is_none());
    let mut s = Smoother::try_new(2, 10i64).unwrap();
    assert_eq!(s.m_History, vec![10, 10]);
    assert_eq!(s.update(0), 5);
}
