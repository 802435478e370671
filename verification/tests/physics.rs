use libscroll::interpolate::Event;
use libscroll::interpolate::Interpolator;
use libscroll::Config;
use libscroll::Source;

const UNIT: i64 = 1_000_000;

fn fresh() -> Interpolator {
    Interpolator::new(false, (0, 100 * UNIT), 0)
}

#[test]
fn decay_exact_single_step() {
    let it = fresh();
    // |v| = 0.095 units; the friction factor of 0.09 units is 0.48, so the
    // slope is -0.000043 and one 0.1-unit step removes 4 increments.
    assert_eq!(it.decay(0, 100_000, 0, 95_000), 94_996);
    assert_eq!(it.decay(0, 100_000, 0, -95_000), -94_996);
}

#[test]
fn decay_of_zero_stays_zero() {
    let it = fresh();
    assert_eq!(it.decay(0, 100_000, 0, 0), 0);
}

#[test]
fn decay_monotonically_dissipates() {
    let it = fresh();
    let mut v: i64 = 5 * UNIT;
    for _ in 0..50 {
        let next = it.decay(0, 100_000, 0, v);
        assert!(next.abs() <= v.abs());
        assert!(next >= 0);
        v = next;
    }
    let mut w: i64 = -5 * UNIT;
    for _ in 0..50 {
        let next = it.decay(0, 100_000, 0, w);
        assert!(next.abs() <= w.abs());
        assert!(next <= 0);
        w = next;
    }
}

#[test]
fn accelerate_is_identity_without_capability() {
    let cfg = Config::default();
    let it = fresh();
    assert_eq!(it.accelerate(2 * UNIT, &cfg), 2 * UNIT);
}

#[test]
fn accelerate_applies_power_law_on_touchpad() {
    let cfg = Config::default();
    let mut it = fresh();
    it.set_source(Source::Touchpad);
    // (2.0 / 10)^1.4 * 10 with hundredth-unit precision: x = 0.2,
    // x^0.4 = 0.52, x^1.4 = 0.104, times the pivot 10 gives 1.04 units.
    assert_eq!(it.accelerate(2 * UNIT, &cfg), 1_040_000);
    assert_eq!(it.accelerate(-2 * UNIT, &cfg), -1_040_000);
}

#[test]
fn overscroll_attenuates_with_distance() {
    let cfg = Config::default();
    let mut it = fresh();
    it.set_source(Source::Touchscreen);
    // 50 units outside: the factor is 1/50 = 0.02.
    let at_150 = it.handle_overscroll(0, 0, 150 * UNIT, 10 * UNIT, &cfg);
    assert_eq!(at_150, 200_000);
    // 100 units outside: the factor is 0.01; further out attenuates more.
    let at_200 = it.handle_overscroll(0, 0, 200 * UNIT, 10 * UNIT, &cfg);
    assert_eq!(at_200, 100_000);
    assert!(at_200 < at_150);
    assert!(at_150 < 10 * UNIT);
}

#[test]
fn overscroll_passes_inward_velocity_through() {
    let cfg = Config::default();
    let mut it = fresh();
    it.set_source(Source::Touchscreen);
    assert_eq!(it.handle_overscroll(0, 0, 150 * UNIT, -5 * UNIT, &cfg), -5 * UNIT);
    assert_eq!(it.handle_overscroll(0, 0, -50 * UNIT, 5 * UNIT, &cfg), 5 * UNIT);
}

#[test]
fn overscroll_clamps_outward_velocity_without_capability() {
    let cfg = Config::default();
    let it = fresh();
    // Undefined sources do not overscroll: outward motion is clamped,
    // motion back toward the track passes through.
    assert_eq!(it.handle_overscroll(0, 0, 150 * UNIT, 5 * UNIT, &cfg), 0);
    assert_eq!(it.handle_overscroll(0, 0, 150 * UNIT, -5 * UNIT, &cfg), -5 * UNIT);
}

#[test]
fn overscroll_is_identity_inside_bounds() {
    let cfg = Config::default();
    let mut it = fresh();
    it.set_source(Source::Touchscreen);
    assert_eq!(it.handle_overscroll(0, 0, 50 * UNIT, 7 * UNIT, &cfg), 7 * UNIT);
}

#[test]
fn linear_interpolation_reproduces_endpoints() {
    let e1 = Event { time: 10 * UNIT, value: 5 * UNIT };
    let e2 = Event { time: 20 * UNIT, value: 10 * UNIT };
    assert_eq!(Interpolator::sample_linear(&e1, &e2, 10 * UNIT), 5 * UNIT);
    assert_eq!(Interpolator::sample_linear(&e1, &e2, 20 * UNIT), 10 * UNIT);
    assert_eq!(Interpolator::sample_linear(&e1, &e2, 15 * UNIT), 7_500_000);
}

#[test]
fn interpolate_linear_between_two_events() {
    let cfg = Config::default();
    let mut it = fresh();
    it.signal_pan(10 * UNIT, 5 * UNIT);
    it.signal_pan(20 * UNIT, 5 * UNIT);
    // Events sit at values 5 and 10; halfway in time is halfway in value.
    assert_eq!(it.interpolate(15 * UNIT, &cfg), 7_500_000);
    assert_eq!(it.interpolate(20 * UNIT, &cfg), 10 * UNIT);
}

#[test]
fn interpolate_single_event_fallback() {
    let cfg = Config::default();
    let mut it = fresh();
    it.signal_pan(10 * UNIT, 5 * UNIT);
    // One event of value 5, divided by the 150-unit zero-injection gap.
    assert_eq!(it.interpolate(20 * UNIT, &cfg), 33_333);
}

#[test]
fn interpolate_no_events_is_zero() {
    let cfg = Config::default();
    let it = fresh();
    assert_eq!(it.interpolate(20 * UNIT, &cfg), 0);
}

#[test]
fn slope_of_coincident_times_is_zero() {
    let e1 = Event { time: 10, value: 4 };
    let e2 = Event { time: 10, value: 9 };
    assert_eq!(Interpolator::slope_of(&e1, &e2), 0);
}

#[test]
fn fling_boost_doubles_velocity() {
    let cfg = Config::default();
    let it = fresh();
    assert_eq!(it.fling_boost(3 * UNIT, &cfg), 6 * UNIT);
}

#[test]
fn bounce_springs_back_toward_track() {
    let cfg = Config::default();
    let mut it = fresh();
    // 50 units past the upper bound, at rest: the spring accelerates the
    // content back (negative velocity) over a 0.1-unit step.
    let v = it.bounce(0, 100_000, 150 * UNIT, 0, &cfg);
    assert!(v < 0);
    // Re-entering the bounds does not end the bounce by itself; the state
    // persists until the tracking pipeline resets it.
    assert!(matches!(it.bouncing, libscroll::interpolate::BounceState::Bouncing(_)));
}
