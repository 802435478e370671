use libscroll::interpolate::Event;
use libscroll::interpolate::Interpolator;
use libscroll::interpolate::Phase;
use libscroll::interpolate::TICK_PERIOD_INFINITE;
use libscroll::Config;
use libscroll::Source;

const UNIT: i64 = 1_000_000;

fn fresh() -> Interpolator {
    Interpolator::new(false, (0, 100 * UNIT), 0)
}

#[test]
fn new_interpolator_is_inactive() {
    let it = fresh();
    assert!(!it.animating());
    assert_eq!(it.min_tick_period, TICK_PERIOD_INFINITE);
    assert!(it.events.is_empty());
    assert!(it.samples.is_empty());
}

#[test]
fn pan_fling_interrupt_drive_the_phases() {
    let mut it = fresh();
    it.signal_pan(10 * UNIT, 5 * UNIT);
    assert!(it.animating());
    assert_eq!(it.current_phase, Phase::Interpolating);
    it.signal_fling(20 * UNIT);
    assert_eq!(it.current_phase, Phase::Released(20 * UNIT));
    it.signal_interrupt(30 * UNIT);
    assert!(!it.animating());
    assert_eq!(it.min_tick_period, TICK_PERIOD_INFINITE);
}

#[test]
fn pan_records_min_tick_period() {
    let mut it = fresh();
    it.signal_pan(10 * UNIT, 5 * UNIT);
    assert_eq!(it.min_tick_period, TICK_PERIOD_INFINITE);
    it.signal_pan(12 * UNIT, 5 * UNIT);
    assert_eq!(it.min_tick_period, 2 * UNIT);
}

#[test]
fn pan_accumulates_absolute_values() {
    let mut it = fresh();
    it.signal_pan(10 * UNIT, 5 * UNIT);
    it.signal_pan(20 * UNIT, 5 * UNIT);
    assert_eq!(it.events.len(), 2);
    assert_eq!(it.events[0], Event { time: 10 * UNIT, value: 5 * UNIT });
    assert_eq!(it.events[1], Event { time: 20 * UNIT, value: 10 * UNIT });
}

#[test]
fn out_of_order_pan_discards_stale_event_and_samples() {
    let cfg = Config::default();
    let mut it = fresh();
    it.signal_pan(10 * UNIT, 5 * UNIT);
    it.signal_pan(20 * UNIT, 5 * UNIT);
    it.sample(20 * UNIT, &cfg);
    assert_eq!(it.samples.len(), 1);
    it.signal_pan(15 * UNIT, UNIT);
    assert_eq!(it.events.len(), 2);
    assert_eq!(it.events[1], Event { time: 15 * UNIT, value: 11 * UNIT });
    // The memoized sample at the stale event's time was invalidated.
    assert!(it.samples.is_empty());
}

#[test]
fn cull_bounds_event_history() {
    let cfg = Config::default();
    let mut it = fresh();
    for k in 1..=30i64 {
        it.signal_pan(k * UNIT, UNIT);
    }
    assert_eq!(it.events.len(), 30);
    it.sample(30 * UNIT, &cfg);
    assert_eq!(it.events.len(), cfg.event_expiry_count);
}

#[test]
fn idle_detection_stops_released_axis() {
    let cfg = Config::default();
    let mut it = fresh();
    it.signal_fling(5 * UNIT);
    assert!(it.animating());
    let mut t = 6 * UNIT;
    for _ in 0..25 {
        it.sample(t, &cfg);
        t += UNIT;
    }
    // 25 standstill frames exceed the 20-flip threshold.
    assert!(!it.animating());
}

#[test]
fn intervening_pan_prevents_idle_transition() {
    let cfg = Config::default();
    let mut it = fresh();
    it.signal_fling(5 * UNIT);
    let mut t = 6 * UNIT;
    for _ in 0..10 {
        it.sample(t, &cfg);
        t += UNIT;
    }
    it.signal_pan(t, UNIT);
    for _ in 0..25 {
        it.sample(t, &cfg);
        t += UNIT;
    }
    // Interpolating frames keep the idle counter at zero.
    assert!(it.animating());
    assert_eq!(it.flips_same_value, 0);
}

#[test]
fn anti_coast_interrupts_stale_gesture() {
    let cfg = Config::default();
    let mut it = fresh();
    it.signal_pan(10 * UNIT, 5 * UNIT);
    it.signal_pan(12 * UNIT, 5 * UNIT);
    // min_tick_period is 2 units and ticks_to_coast is 1.6, so any gap
    // beyond 3.2 units counts as an abandoned gesture.
    it.sample(13 * UNIT, &cfg);
    assert!(it.animating());
    it.sample(17 * UNIT, &cfg);
    assert!(!it.animating());
    assert_eq!(it.min_tick_period, TICK_PERIOD_INFINITE);
}

#[test]
fn end_to_end_fling_boosts_over_pure_decay() {
    let cfg = Config::default();
    let mut it = fresh();
    it.signal_pan(10 * UNIT, 5 * UNIT);
    it.signal_pan(20 * UNIT, 5 * UNIT);
    let before_fling = it.sample(20 * UNIT, &cfg);
    assert_eq!(before_fling, 0);
    it.signal_fling(20 * UNIT);
    let after_fling = it.sample(25 * UNIT, &cfg);
    // Pure decay of the memoized standstill would stay at zero; the
    // release instead carries event-derived velocity into the decay.
    assert!(after_fling > 0);
    assert!(it.animating());
    // The trajectory keeps decaying, monotonically, on later samples.
    let later = it.sample(30 * UNIT, &cfg);
    assert!(later > after_fling);
}

#[test]
fn set_geometry_takes_effect_immediately() {
    let cfg = Config::default();
    let mut it = fresh();
    it.set_source(Source::Touchscreen);
    it.set_geometry(0, 200 * UNIT);
    // 150 units is inside the new track, so velocity passes through.
    assert_eq!(it.handle_overscroll(0, 0, 150 * UNIT, 5 * UNIT, &cfg), 5 * UNIT);
}

#[test]
fn source_capabilities() {
    assert!(Source::Touchscreen.overscrolls());
    assert!(Source::Touchpad.overscrolls());
    assert!(!Source::Mousewheel.overscrolls());
    assert!(Source::Touchpad.accelerates());
    assert!(!Source::Touchscreen.accelerates());
    assert!(Source::KineticPassthrough.kinetic());
    assert!(Source::Touchscreen.kinetic());
    assert!(!Source::Passthrough.kinetic());
    assert!(matches!(Source::default(), Source::Undefined));
}

#[test]
fn default_config_values() {
    let cfg = Config::default();
    assert_eq!(cfg.timestep, 100_000);
    assert_eq!(cfg.event_expiry_count, 20);
    assert_eq!(cfg.sample_expiry_count, 20);
    assert_eq!(cfg.flips_to_idle, 20);
    assert_eq!(cfg.fling_boost_constant_factor, 2 * UNIT);
}
