//! The per-axis interpolator: event/sample history, the gesture phase state
//! machine, and the time-stepped integration that turns raw pan events into
//! a smooth position-over-time function.
//!
//! All quantities are saturating fixed-point values (see [`crate::fixed`]):
//! times, positions and velocities carry [`crate::fixed::FX_SCALE`]
//! increments per unit. The physics tunables arrive as a [`crate::Config`]
//! snapshot passed into every call.

use vstd::prelude::*;

verus! {

use std::collections::VecDeque;
use crate::Config;
use crate::Source;
use crate::fixed::FX_MAX;
use crate::fixed::FX_SCALE;
use crate::fixed::fx_abs;
use crate::fixed::fx_abs_val;
use crate::fixed::fx_add;
use crate::fixed::fx_add_s;
use crate::fixed::fx_div;
use crate::fixed::fx_div_s;
use crate::fixed::fx_mul;
use crate::fixed::fx_mul_s;
use crate::fixed::fx_clip;
use crate::fixed::fx_muldiv_s;
use crate::fixed::fx_ok;
use crate::fixed::fx_sub;
use crate::fixed::fx_sub_s;
use crate::ranged_map::ToKey;

broadcast use crate::fixed::lemma_fx_mul_sign, crate::fixed::lemma_fx_div_sign, crate::fixed::lemma_fx_muldiv_sign;

/// The inter-event gap recorded when no previous event exists: effectively
/// infinite, so it can never trigger coast detection on its own.
pub const TICK_PERIOD_INFINITE: i64 = i64::MAX;

/// Gesture phase of one axis.
#[derive(Clone, Copy, Debug, PartialEq, Eq, Structural)]
pub enum Phase {
    /// Nothing moves; every sample repeats the last position.
    Inactive,
    /// A finger is down and events drive the position directly.
    Interpolating,
    /// Contact has been released at the carried time; the trajectory decays
    /// kinetically.
    Released(i64),
}

/// Which track boundary is being sprung against.
#[derive(Clone, Copy, Debug, PartialEq, Eq, Structural)]
pub enum TrackPosition {
    Top,
    Bottom,
}

/// Whether the content is inside the track or springing back from an edge.
#[derive(Clone, Copy, Debug, PartialEq, Eq, Structural)]
pub enum BounceState {
    Bouncing(TrackPosition),
    Normal,
}

/// An absolute axis position implied by a pan delta at a point in time.
#[derive(Clone, Copy, Debug, PartialEq, Eq, Structural, PartialOrd, Ord)]
pub struct Event {
    /// Fixed-point time the event was received at.
    pub time: i64,
    /// The absolute position the accumulated deltas imply.
    pub value: i64,
}

impl ToKey for Event {
    open spec fn spec_key(&self) -> u64 {
        if self.time < 0 {
            0
        } else {
            self.time as u64
        }
    }

    fn to_key(&self) -> (k: u64)
        ensures
            k == self.spec_key(),
    {
        if self.time < 0 {
            0
        } else {
            self.time as u64
        }
    }
}

/// A memoized point of the already-computed trajectory.
#[derive(Clone, Copy, Debug, PartialEq, Eq, Structural)]
pub struct Sample {
    pub time: i64,
    pub velocity: i64,
    pub position: i64,
}

/// State machine and integration engine for one scroll axis.
pub struct Interpolator {
    /// Whether events may be uniformly redistributed (reserved).
    pub redistributable: bool,
    /// Pan events, oldest first.
    pub events: VecDeque<Event>,
    /// Memoized trajectory samples, oldest first.
    pub samples: VecDeque<Sample>,
    /// When the current pan gesture started (reserved).
    pub pan_start_time: i64,
    /// Current gesture phase.
    pub current_phase: Phase,
    /// Upper bound of the track.
    pub track_bound_upper: i64,
    /// Lower bound of the track.
    pub track_bound_lower: i64,
    /// Position the track starts at before any event arrives.
    pub track_initial_pos: i64,
    /// Whether the content is springing back from an edge.
    pub bouncing: BounceState,
    /// Smallest inter-event gap seen in the current gesture.
    pub min_tick_period: i64,
    /// Position of the previous sample, for idle detection.
    pub last_value: i64,
    /// Consecutive samples without observable movement.
    pub flips_same_value: u64,
    /// Device kind the current events come from.
    pub source: Source,
}

impl Interpolator {
    /// Every stored quantity is inside the fixed-point range and the
    /// recorded inter-event gap is positive.
    pub open spec fn wf(self) -> bool {
        &&& forall|i: int| #![trigger self.events@[i]]
            0 <= i < self.events@.len() ==> fx_ok(self.events@[i].time as int) && fx_ok(
                self.events@[i].value as int,
            )
        &&& forall|i: int| #![trigger self.samples@[i]]
            0 <= i < self.samples@.len() ==> fx_ok(self.samples@[i].time as int)
                && fx_ok(self.samples@[i].velocity as int) && fx_ok(
                self.samples@[i].position as int,
            )
        &&& fx_ok(self.track_bound_upper as int)
        &&& fx_ok(self.track_bound_lower as int)
        &&& fx_ok(self.track_initial_pos as int)
        &&& fx_ok(self.last_value as int)
        &&& self.min_tick_period > 0
        &&& (self.current_phase matches Phase::Released(t) ==> fx_ok(t as int))
    }

    pub fn new(redistributable: bool, track_bounds: (i64, i64), initial_position: i64) -> (r:
        Interpolator)
        requires
            fx_ok(track_bounds.0 as int),
            fx_ok(track_bounds.1 as int),
            fx_ok(initial_position as int),
        ensures
            r.wf(),
            r.redistributable == redistributable,
            r.events@ == Seq::<Event>::empty(),
            r.samples@ == Seq::<Sample>::empty(),
            r.pan_start_time == 0,
            r.min_tick_period == TICK_PERIOD_INFINITE,
            r.current_phase == Phase::Inactive,
            r.track_bound_lower == track_bounds.0,
            r.track_bound_upper == track_bounds.1,
            r.track_initial_pos == initial_position,
            r.flips_same_value == 0,
            r.last_value == 0,
            r.bouncing == BounceState::Normal,
            r.source == Source::Undefined,
    {
        Interpolator {
            redistributable,
            events: VecDeque::with_capacity(5),
            samples: VecDeque::new(),
            pan_start_time: 0,
            min_tick_period: TICK_PERIOD_INFINITE,
            current_phase: Phase::Inactive,
            track_bound_lower: track_bounds.0,
            track_bound_upper: track_bounds.1,
            track_initial_pos: initial_position,
            flips_same_value: 0,
            last_value: 0,
            bouncing: BounceState::Normal,
            source: Source::Undefined,
        }
    }

    /// Declare what device the following events come from.
    pub fn set_source(&mut self, source: Source)
        requires
            old(self).wf(),
        ensures
            final(self).wf(),
            *final(self) == (Interpolator { source, ..*old(self) }),
    {
        self.source = source;
    }

    /// Record a release: the trajectory now decays kinetically from the
    /// release instant.
    pub fn signal_fling(&mut self, time: i64)
        requires
            old(self).wf(),
            fx_ok(time as int),
        ensures
            final(self).wf(),
            *final(self) == (Interpolator { current_phase: Phase::Released(time), ..*old(self) }),
    {
        self.current_phase = Phase::Released(time);
    }

    /// Hook reserved for clearing history when a gesture logically ends;
    /// deliberately does nothing today.
    pub fn flush(&mut self, time: i64)
        ensures
            *final(self) == *old(self),
    {
        let _ = time;
    }

    /// A finger has come down (or the gesture is otherwise cancelled): stop
    /// animating and forget the gap statistics of the stale gesture, so they
    /// cannot trigger false coast detection on the next one.
    pub fn signal_interrupt(&mut self, time: i64)
        requires
            old(self).wf(),
        ensures
            final(self).wf(),
            *final(self) == (Interpolator {
                current_phase: Phase::Inactive,
                min_tick_period: TICK_PERIOD_INFINITE,
                ..*old(self)
            }),
    {
        self.current_phase = Phase::Inactive;
        self.flush(time);
        self.min_tick_period = TICK_PERIOD_INFINITE;
    }

    /// Whether the view should keep polling `sample` even without events.
    pub fn animating(&self) -> (r: bool)
        ensures
            r == !(self.current_phase is Inactive),
    {
        match self.current_phase {
            Phase::Inactive => false,
            _ => true,
        }
    }

    /// Update the track bounds used for overscroll and bounce decisions.
    pub fn set_geometry(&mut self, min: i64, max: i64)
        requires
            old(self).wf(),
            fx_ok(min as int),
            fx_ok(max as int),
        ensures
            final(self).wf(),
            *final(self) == (Interpolator {
                track_bound_lower: min,
                track_bound_upper: max,
                ..*old(self)
            }),
    {
        self.track_bound_upper = max;
        self.track_bound_lower = min;
    }

    /// Force the axis inactive and drop the memoized trajectory.
    pub fn set_inactive(&mut self)
        requires
            old(self).wf(),
        ensures
            final(self).wf(),
            final(self).samples@ == Seq::<Sample>::empty(),
            *final(self) == (Interpolator {
                current_phase: Phase::Inactive,
                bouncing: BounceState::Normal,
                samples: final(self).samples,
                ..*old(self)
            }),
    {
        self.current_phase = Phase::Inactive;
        self.bouncing = BounceState::Normal;
        self.samples.clear();
    }

    /// Whether a position lies outside the track bounds.
    pub fn outside_bounds(&self, position: i64) -> (r: bool)
        ensures
            r == spec_outside_bounds(
                position as int,
                self.track_bound_lower as int,
                self.track_bound_upper as int,
            ),
    {
        position > self.track_bound_upper || position < self.track_bound_lower
    }

    /// The most recent event's absolute value, or zero with no events.
    pub fn short_circuit_single_event(&self) -> (r: i64)
        requires
            self.wf(),
        ensures
            r as int == (if self.events@.len() == 0 {
                0
            } else {
                self.events@.last().value as int
            }),
    {
        if self.events.len() == 0 {
            0
        } else {
            self.events[self.events.len() - 1].value
        }
    }

    /// One-time multiplier applied to the velocity carried into a fling.
    pub fn fling_boost(&self, velocity: i64, config: &Config) -> (r: i64)
        ensures
            r as int == fx_mul_s(velocity as int, config.fling_boost_constant_factor as int),
            fx_ok(r as int),
    {
        fx_mul(velocity, config.fling_boost_constant_factor)
    }

    /// Input scale applied before the acceleration curve.
    pub fn pre_scale(&self, velocity: i64, config: &Config) -> (r: i64)
        ensures
            r as int == fx_mul_s(velocity as int, config.pre_accel_scale_velocity as int),
            fx_ok(r as int),
    {
        fx_mul(velocity, config.pre_accel_scale_velocity)
    }

    /// Output scale applied after overscroll handling.
    pub fn post_scale(&self, velocity: i64, config: &Config) -> (r: i64)
        ensures
            r as int == fx_mul_s(velocity as int, config.post_accel_scale_velocity as int),
            fx_ok(r as int),
    {
        fx_mul(velocity, config.post_accel_scale_velocity)
    }

    /// Drop history from the front of both queues until each is within its
    /// configured bound.
    pub fn cull(&mut self, config: &Config)
        requires
            old(self).wf(),
        ensures
            final(self).wf(),
            final(self).samples@ == culled(old(self).samples@, config.sample_expiry_count as int),
            final(self).events@ == culled(old(self).events@, config.event_expiry_count as int),
            *final(self) == (Interpolator {
                samples: final(self).samples,
                events: final(self).events,
                ..*old(self)
            }),
    {
        proof {
            assert(self.samples@ =~= old(self).samples@.subrange(
                old(self).samples@.len() - self.samples@.len(),
                old(self).samples@.len() as int,
            ));
        }
        while self.samples.len() > config.sample_expiry_count
            invariant
                old(self).wf(),
                self.samples@.len() <= old(self).samples@.len(),
                self.samples@ == old(self).samples@.subrange(
                    old(self).samples@.len() - self.samples@.len(),
                    old(self).samples@.len() as int,
                ),
                self.samples@.len() >= config.sample_expiry_count || self.samples@.len()
                    == old(self).samples@.len(),
                *self == (Interpolator { samples: self.samples, ..*old(self) }),
            decreases self.samples@.len(),
        {
            self.samples.pop_front();
            proof {
                assert(self.samples@ =~= old(self).samples@.subrange(
                    old(self).samples@.len() - self.samples@.len(),
                    old(self).samples@.len() as int,
                ));
            }
        }
        proof {
            assert(self.samples@ =~= culled(old(self).samples@, config.sample_expiry_count as int));
            assert(self.events@ =~= old(self).events@.subrange(
                old(self).events@.len() - self.events@.len(),
                old(self).events@.len() as int,
            ));
        }
        while self.events.len() > config.event_expiry_count
            invariant
                old(self).wf(),
                self.events@.len() <= old(self).events@.len(),
                self.events@ == old(self).events@.subrange(
                    old(self).events@.len() - self.events@.len(),
                    old(self).events@.len() as int,
                ),
                self.events@.len() >= config.event_expiry_count || self.events@.len() == old(
                    self,
                ).events@.len(),
                self.samples@ == culled(old(self).samples@, config.sample_expiry_count as int),
                *self == (Interpolator {
                    samples: self.samples,
                    events: self.events,
                    ..*old(self)
                }),
            decreases self.events@.len(),
        {
            self.events.pop_front();
            proof {
                assert(self.events@ =~= old(self).events@.subrange(
                    old(self).events@.len() - self.events@.len(),
                    old(self).events@.len() as int,
                ));
            }
        }
        proof {
            assert(self.events@ =~= culled(old(self).events@, config.event_expiry_count as int));
            let ks = old(self).samples@.len() - self.samples@.len();
            assert forall|i: int| 0 <= i < self.samples@.len() implies fx_ok(
                #[trigger] self.samples@[i].time as int,
            ) && fx_ok(self.samples@[i].velocity as int) && fx_ok(
                self.samples@[i].position as int,
            ) by {
                assert(self.samples@[i] == old(self).samples@[ks + i]);
                assert(fx_ok(old(self).samples@[ks + i].time as int) && fx_ok(
                    old(self).samples@[ks + i].velocity as int,
                ) && fx_ok(old(self).samples@[ks + i].position as int));
            }
            let ke = old(self).events@.len() - self.events@.len();
            assert forall|i: int| 0 <= i < self.events@.len() implies fx_ok(
                #[trigger] self.events@[i].time as int,
            ) && fx_ok(self.events@[i].value as int) by {
                assert(self.events@[i] == old(self).events@[ke + i]);
                assert(fx_ok(old(self).events@[ke + i].time as int) && fx_ok(
                    old(self).events@[ke + i].value as int,
                ));
            }
        }
    }
}

/// The samples kept when a stale event is discarded: those strictly older
/// than the discarded event's time (later samples relied on the bad data).
pub open spec fn retained_samples(s: Seq<Sample>, cutoff: int) -> Seq<Sample> {
    s.filter(|x: Sample| (x.time as int) < cutoff)
}

proof fn lemma_retained_push(s: Seq<Sample>, x: Sample, cutoff: int)
    ensures
        retained_samples(s.push(x), cutoff) == (if (x.time as int) < cutoff {
            retained_samples(s, cutoff).push(x)
        } else {
            retained_samples(s, cutoff)
        }),
{
    reveal(Seq::filter);
    assert(s.push(x).drop_last() =~= s);
    assert(s.push(x).last() == x);
    if (x.time as int) < cutoff {
        assert(retained_samples(s.push(x), cutoff) =~= retained_samples(s, cutoff).push(x));
    }
}

impl Interpolator {
    /// Append a pan event whose absolute value is the previous event's
    /// value (or the track's initial position) plus `delta`.
    ///
    /// An event at or before the previous one means input arrived out of
    /// order: the previous event is discarded and the samples computed at
    /// or after its time are invalidated, the least disruptive recovery.
    /// Otherwise the gap to the previous event is recorded for coast
    /// detection. Either way the axis is now interpolating.
    pub fn signal_pan(&mut self, time: i64, delta: i64)
        requires
            old(self).wf(),
            time != 0,
            fx_ok(time as int),
            fx_ok(delta as int),
        ensures
            final(self).wf(),
            final(self).current_phase == Phase::Interpolating,
            ({
                let had_prev = old(self).events@.len() > 0;
                let prev_value = if had_prev {
                    old(self).events@.last().value as int
                } else {
                    old(self).track_initial_pos as int
                };
                let new_event = Event {
                    time,
                    value: fx_add_s(prev_value, delta as int) as i64,
                };
                if had_prev && time <= old(self).events@.last().time {
                    &&& final(self).events@ == old(self).events@.drop_last().push(new_event)
                    &&& final(self).samples@ == retained_samples(
                        old(self).samples@,
                        old(self).events@.last().time as int,
                    )
                    &&& final(self).min_tick_period == old(self).min_tick_period
                } else {
                    &&& final(self).events@ == old(self).events@.push(new_event)
                    &&& final(self).samples@ == old(self).samples@
                    &&& final(self).min_tick_period == (if had_prev {
                        time - old(self).events@.last().time
                    } else {
                        TICK_PERIOD_INFINITE as int
                    })
                }
            }),
            *final(self) == (Interpolator {
                current_phase: Phase::Interpolating,
                events: final(self).events,
                samples: final(self).samples,
                min_tick_period: final(self).min_tick_period,
                ..*old(self)
            }),
    {
        self.current_phase = Phase::Interpolating;

        let has_prev = self.events.len() > 0;
        let (prev_val, prev_time): (i64, i64) = if has_prev {
            let e = self.events[self.events.len() - 1];
            (e.value, e.time)
        } else {
            (self.track_initial_pos, 0)
        };
        let current_val = fx_add(prev_val, delta);

        if has_prev && time <= prev_time {
            let n = self.samples.len();
            let mut kept: VecDeque<Sample> = VecDeque::new();
            let mut i: usize = 0;
            proof {
                assert(old(self).samples@.take(0) =~= Seq::<Sample>::empty());
                assert(kept@ =~= retained_samples(old(self).samples@.take(0), prev_time as int))
                    by {
                    reveal(Seq::filter);
                }
            }
            while i < n
                invariant
                    old(self).wf(),
                    n == old(self).samples@.len(),
                    i <= n,
                    self.samples@ == old(self).samples@,
                    kept@ == retained_samples(old(self).samples@.take(i as int), prev_time as int),
                    forall|j: int| #![trigger kept@[j]]
                        0 <= j < kept@.len() ==> fx_ok(kept@[j].time as int) && fx_ok(
                            kept@[j].velocity as int,
                        ) && fx_ok(kept@[j].position as int),
                decreases n - i,
            {
                let s = self.samples[i];
                proof {
                    assert(old(self).samples@.take(i + 1) =~= old(self).samples@.take(
                        i as int,
                    ).push(s));
                    lemma_retained_push(
                        old(self).samples@.take(i as int),
                        s,
                        prev_time as int,
                    );
                }
                if s.time < prev_time {
                    kept.push_back(s);
                }
                i = i + 1;
            }
            proof {
                assert(old(self).samples@.take(n as int) =~= old(self).samples@);
            }
            self.samples = kept;
            self.events.pop_back();
            self.events.push_back(Event { value: current_val, time });
            proof {
                assert(final(self).events@ =~= old(self).events@.drop_last().push(
                    Event { value: current_val, time },
                ));
            }
        } else {
            if has_prev {
                self.min_tick_period = time - prev_time;
            } else {
                self.min_tick_period = TICK_PERIOD_INFINITE;
            }
            self.events.push_back(Event { value: current_val, time });
        }
    }
}

/// The saturating-fixed-point line through `first` and `second`, evaluated
/// at `at`: `first.value + (second.value - first.value) * (at - first.time)
/// / (second.time - first.time)`, or `first.value` for coincident times.
/// The fused multiply-divide reproduces both endpoints exactly.
pub open spec fn sample_linear_s(first: Event, second: Event, at: int) -> int {
    if first.time == second.time {
        first.value as int
    } else {
        fx_add_s(
            first.value as int,
            crate::fixed::fx_muldiv_s(
                fx_sub_s(second.value as int, first.value as int),
                fx_sub_s(at, first.time as int),
                fx_sub_s(second.time as int, first.time as int),
            ),
        )
    }
}

/// Slope of the segment between two events; zero for coincident times.
pub open spec fn slope_of_s(first: Event, second: Event) -> int {
    if first.time == second.time {
        0
    } else {
        fx_div_s(
            fx_sub_s(first.value as int, second.value as int),
            fx_sub_s(first.time as int, second.time as int),
        )
    }
}

/// Index of the event the original selection calls "first before": among
/// events strictly before `t`, the one with the greatest time, ties going
/// to the latest-queued.
pub open spec fn best_before(s: Seq<Event>, t: int) -> Option<int>
    decreases s.len(),
{
    if s.len() == 0 {
        None
    } else {
        let prev = best_before(s.drop_last(), t);
        let e = s.last();
        if (e.time as int) < t {
            match prev {
                Option::None => Option::Some(s.len() - 1),
                Option::Some(p) => if e.time >= s[p].time {
                    Option::Some(s.len() - 1)
                } else {
                    prev
                },
            }
        } else {
            prev
        }
    }
}

/// Index of the "first after" event: among events at or after `t`, the one
/// with the least time, ties going to the earliest-queued.
pub open spec fn first_after(s: Seq<Event>, t: int) -> Option<int>
    decreases s.len(),
{
    if s.len() == 0 {
        None
    } else {
        let prev = first_after(s.drop_last(), t);
        let e = s.last();
        if (e.time as int) >= t {
            match prev {
                Option::None => Option::Some(s.len() - 1),
                Option::Some(p) => if e.time < s[p].time {
                    Option::Some(s.len() - 1)
                } else {
                    prev
                },
            }
        } else {
            prev
        }
    }
}

pub proof fn lemma_best_before_props(s: Seq<Event>, t: int)
    ensures
        (match best_before(s, t) {
            Option::None => true,
            Option::Some(p) => 0 <= p < s.len() && (s[p].time as int) < t,
        }),
    decreases s.len(),
{
    if s.len() > 0 {
        lemma_best_before_props(s.drop_last(), t);
    }
}

pub proof fn lemma_first_after_props(s: Seq<Event>, t: int)
    ensures
        (match first_after(s, t) {
            Option::None => true,
            Option::Some(p) => 0 <= p < s.len() && (s[p].time as int) >= t,
        }),
    decreases s.len(),
{
    if s.len() > 0 {
        lemma_first_after_props(s.drop_last(), t);
    }
}

/// The velocity estimate the event history yields at `t`.
///
/// Up to three bracketing events are selected — the nearest strictly
/// before `t`, the nearest at or after it, and the one before that — and
/// the estimate dispatches on how many exist: none gives zero; one gives
/// its value damped by the maximum no-zero-injection gap; two give the
/// line through both; three give the line through the two most recent.
/// The selection can never produce more than three events, so no
/// higher-order curve is reachable from here.
pub open spec fn interpolate_s(s: Seq<Event>, t: int, max_ms: int) -> int {
    let fb = best_before(s, t);
    let fa = first_after(s, t);
    match fb {
        Option::None => match fa {
            Option::None => 0,
            Option::Some(a) => fx_div_s(s[a].value as int, max_ms),
        },
        Option::Some(b) => {
            let sb = best_before(s, s[b].time as int);
            match (sb, fa) {
                (Option::None, Option::None) => fx_div_s(s[b].value as int, max_ms),
                (Option::None, Option::Some(a)) => sample_linear_s(s[b], s[a], t),
                (Option::Some(c), Option::None) => sample_linear_s(s[c], s[b], t),
                (Option::Some(c), Option::Some(a)) => sample_linear_s(s[b], s[a], t),
            }
        },
    }
}

impl Interpolator {
    /// Evaluate the line through two events at `sample`, reproducing both
    /// endpoints exactly.
    pub fn sample_linear(first: &Event, second: &Event, sample: i64) -> (r: i64)
        requires
            fx_ok(first.value as int),
        ensures
            r as int == sample_linear_s(*first, *second, sample as int),
            fx_ok(r as int),
    {
        if first.time == second.time {
            first.value
        } else {
            let dv = fx_sub(second.value, first.value);
            let dt = fx_sub(sample, first.time);
            let span = fx_sub(second.time, first.time);
            fx_add(first.value, crate::fixed::fx_muldiv(dv, dt, span))
        }
    }

    /// Whether a value is small enough to display as no motion at all.
    pub fn rounds_to_zero(val: i64) -> (r: bool)
        requires
            fx_ok(val as int),
        ensures
            r == (fx_abs(val as int) < 500_000),
    {
        fx_abs_val(val) < 500_000
    }

    /// Constant interpolation: the first selected event's value, whatever
    /// the query time.
    pub fn interpolate_constant(events: &Vec<Event>, at: i64) -> (r: i64)
        requires
            events@.len() > 0,
        ensures
            r == events@[0].value,
    {
        let _ = at;
        events[0].value
    }

    /// Slope of the segment between two events.
    pub fn slope_of(first: &Event, second: &Event) -> (r: i64)
        ensures
            r as int == slope_of_s(*first, *second),
            fx_ok(r as int),
    {
        if first.time == second.time {
            0
        } else {
            fx_div(fx_sub(first.value, second.value), fx_sub(first.time, second.time))
        }
    }

    /// Line through two distinct events.
    pub fn interpolate_linear(first: &Event, second: &Event, at: i64) -> (r: i64)
        requires
            fx_ok(first.value as int),
            !(*first == *second),
        ensures
            r as int == sample_linear_s(*first, *second, at as int),
            fx_ok(r as int),
    {
        Self::sample_linear(first, second, at)
    }

    /// With three bracketing events, interpolate through the two most
    /// recent; the oldest is deliberately unused.
    pub fn interpolate_linear_averaging(mid: &Event, newest: &Event, at: i64) -> (r: i64)
        requires
            fx_ok(mid.value as int),
            !(*mid == *newest),
        ensures
            r as int == sample_linear_s(*mid, *newest, at as int),
            fx_ok(r as int),
    {
        Self::interpolate_linear(mid, newest, at)
    }

    /// The velocity estimate the event history yields at `time`; see
    /// [`interpolate_s`].
    pub fn interpolate(&self, time: i64, config: &Config) -> (r: i64)
        requires
            self.wf(),
            config.wf(),
            fx_ok(time as int),
        ensures
            r as int == interpolate_s(
                self.events@,
                time as int,
                config.max_ms_without_zero_injection as int,
            ),
            fx_ok(r as int),
    {
        let s = &self.events;
        let n = s.len();
        let ghost sq = self.events@;

        let mut fb: Option<usize> = None;
        let mut i: usize = 0;
        proof {
            assert(sq.take(0) =~= Seq::<Event>::empty());
        }
        while i < n
            invariant
                self.wf(),
                sq == self.events@,
                n == sq.len(),
                i <= n,
                fx_ok(time as int),
                (fb is None <==> best_before(sq.take(i as int), time as int) is None),
                (fb matches Some(p) ==> p < i && best_before(sq.take(i as int), time as int)
                    == Option::<int>::Some(p as int)),
            decreases n - i,
        {
            let e = self.events[i];
            proof {
                assert(sq.take(i + 1).drop_last() =~= sq.take(i as int));
                assert(sq.take(i + 1).last() == sq[i as int]);
                lemma_best_before_props(sq.take(i as int), time as int);
            }
            if e.time < time {
                match fb {
                    None => { fb = Some(i) },
                    Some(p) => {
                        if e.time >= self.events[p].time {
                            fb = Some(i);
                        }
                    },
                }
            }
            i = i + 1;
        }
        proof {
            assert(sq.take(n as int) =~= sq);
        }

        let mut fa: Option<usize> = None;
        let mut i: usize = 0;
        while i < n
            invariant
                self.wf(),
                sq == self.events@,
                n == sq.len(),
                i <= n,
                fx_ok(time as int),
                (fa is None <==> first_after(sq.take(i as int), time as int) is None),
                (fa matches Some(p) ==> p < i && first_after(sq.take(i as int), time as int)
                    == Option::<int>::Some(p as int)),
            decreases n - i,
        {
            let e = self.events[i];
            proof {
                assert(sq.take(i + 1).drop_last() =~= sq.take(i as int));
                assert(sq.take(i + 1).last() == sq[i as int]);
                lemma_first_after_props(sq.take(i as int), time as int);
            }
            if e.time >= time {
                match fa {
                    None => { fa = Some(i) },
                    Some(p) => {
                        if e.time < self.events[p].time {
                            fa = Some(i);
                        }
                    },
                }
            }
            i = i + 1;
        }
        proof {
            assert(sq.take(n as int) =~= sq);
            lemma_best_before_props(sq, time as int);
            lemma_first_after_props(sq, time as int);
        }

        match fb {
            None => {
                match fa {
                    None => 0,
                    Some(a) => fx_div(
                        self.events[a].value,
                        config.max_ms_without_zero_injection,
                    ),
                }
            },
            Some(b) => {
                let t2 = self.events[b].time;
                let mut sb: Option<usize> = None;
                let mut i: usize = 0;
                proof {
                    assert(sq.take(0) =~= Seq::<Event>::empty());
                }
                while i < n
                    invariant
                        self.wf(),
                        sq == self.events@,
                        n == sq.len(),
                        i <= n,
                        b < n,
                        t2 == sq[b as int].time,
                        (sb is None <==> best_before(sq.take(i as int), t2 as int) is None),
                        (sb matches Some(p) ==> p < i && best_before(sq.take(i as int), t2 as int)
                            == Option::<int>::Some(p as int)),
                    decreases n - i,
                {
                    let e = self.events[i];
                    proof {
                        assert(sq.take(i + 1).drop_last() =~= sq.take(i as int));
                        assert(sq.take(i + 1).last() == sq[i as int]);
                        lemma_best_before_props(sq.take(i as int), t2 as int);
                    }
                    if e.time < t2 {
                        match sb {
                            None => { sb = Some(i) },
                            Some(p) => {
                                if e.time >= self.events[p].time {
                                    sb = Some(i);
                                }
                            },
                        }
                    }
                    i = i + 1;
                }
                proof {
                    assert(sq.take(n as int) =~= sq);
                    lemma_best_before_props(sq, t2 as int);
                }
                let eb = self.events[b];
                match (sb, fa) {
                    (None, None) => fx_div(eb.value, config.max_ms_without_zero_injection),
                    (None, Some(a)) => {
                        let ea = self.events[a];
                        proof {
                            assert(eb.time < time <= ea.time);
                        }
                        Self::interpolate_linear(&eb, &ea, time)
                    },
                    (Some(c), None) => {
                        let ec = self.events[c];
                        proof {
                            assert(ec.time < eb.time);
                        }
                        Self::interpolate_linear(&ec, &eb, time)
                    },
                    (Some(c), Some(a)) => {
                        let ea = self.events[a];
                        proof {
                            assert(eb.time < time <= ea.time);
                        }
                        Self::interpolate_linear_averaging(&eb, &ea, time)
                    },
                }
            },
        }
    }
}

/// Fixed-point friction coefficient of the decay model (0.00009).
pub const DECAY_SLOPE_COEFFICIENT: i64 = 90;

/// Frictional decay of a released velocity over `dt`: the magnitude drops
/// by `0.00009 * |v| ^ 0.3 * dt`, floored at zero, and the sign is kept.
/// Zero velocity stays zero; the magnitude never grows.
pub open spec fn decay_s(dt: int, v: int) -> int {
    if v == 0 {
        0
    } else {
        let m = fx_abs(v);
        let slope = -fx_mul_s(DECAY_SLOPE_COEFFICIENT as int, crate::fixed::friction_factor_s(m));
        let new_mag = fx_add_s(m, fx_mul_s(slope, dt));
        let floored = if new_mag < 0 {
            0
        } else {
            new_mag
        };
        if v < 0 {
            -floored
        } else {
            floored
        }
    }
}

/// The power-law acceleration curve `sign(v) * (|v|/d)^1.4 * d` (the
/// fractional power computed as `x * x^0.4`), applied only when the device
/// accelerates.
pub open spec fn accelerate_s(v: int, accelerates: bool, discriminant: int) -> int {
    if !accelerates {
        v
    } else {
        let x = fx_div_s(fx_abs(v), discriminant);
        let y = fx_mul_s(fx_mul_s(x, crate::fixed::frac_pow_two_fifths_s(x)), discriminant);
        if v < 0 {
            -y
        } else {
            y
        }
    }
}

/// Hyperbolic attenuation while overscrolled: the velocity is scaled by
/// the reciprocal of the overscroll distance times the elasticity. A
/// reciprocal whose fixed-point denominator vanishes saturates, as a
/// division by an infinitesimal would.
pub open spec fn over_attenuated_s(v: int, outside_by: int, elasticity: int) -> int {
    let denom = fx_mul_s(outside_by, elasticity);
    if denom == 0 {
        if v > 0 {
            FX_MAX as int
        } else if v < 0 {
            -(FX_MAX as int)
        } else {
            0
        }
    } else {
        fx_mul_s(v, fx_div_s(FX_SCALE as int, denom))
    }
}

/// Velocity transform while actively dragging outside the track bounds:
/// on overscrolling devices, outward velocity attenuates with distance and
/// inward velocity passes through; on other devices outward velocity is
/// clamped to zero.
pub open spec fn handle_overscroll_s(
    pos: int,
    lower: int,
    upper: int,
    overscrolls: bool,
    elasticity: int,
    v: int,
) -> int {
    if !spec_outside_bounds(pos, lower, upper) {
        v
    } else if overscrolls {
        if pos > upper {
            if v < 0 {
                v
            } else {
                over_attenuated_s(v, fx_sub_s(pos, upper), elasticity)
            }
        } else {
            if v > 0 {
                v
            } else {
                over_attenuated_s(v, fx_sub_s(lower, pos), elasticity)
            }
        }
    } else {
        if v < 0 && pos < upper {
            0
        } else if v > 0 && pos > lower {
            0
        } else {
            v
        }
    }
}

/// Where the bounce spring anchors after seeing `pos`: leaving the track
/// starts (or re-targets) a bounce against the crossed edge; otherwise the
/// previous state persists.
pub open spec fn bounce_state_after_s(b: BounceState, pos: int, lower: int, upper: int)
    -> BounceState {
    if spec_outside_bounds(pos, lower, upper) {
        if pos > upper {
            BounceState::Bouncing(TrackPosition::Bottom)
        } else {
            BounceState::Bouncing(TrackPosition::Top)
        }
    } else {
        b
    }
}

/// One damped-spring step: `(v + (-displacement * spring / mass) * dt) *
/// damping`, or the velocity unchanged when not bouncing.
pub open spec fn bounce_vel_s(
    b: BounceState,
    pos: int,
    lower: int,
    upper: int,
    dt: int,
    v: int,
    spring: int,
    mass: int,
    damp: int,
) -> int {
    match b {
        BounceState::Normal => v,
        BounceState::Bouncing(tp) => {
            let anchor = if tp is Top {
                lower
            } else {
                upper
            };
            let displacement = fx_sub_s(pos, anchor);
            let force = fx_mul_s(-displacement, spring);
            let acceleration = fx_div_s(force, mass);
            fx_mul_s(fx_add_s(v, fx_mul_s(acceleration, dt)), damp)
        },
    }
}

/// The event-curve velocity estimate over a step: the interpolated values
/// at both endpoints, their difference scaled by the interval length (an
/// approximation kept as-is, since existing tuning depends on it).
pub open spec fn sample_velocity_s(s: Seq<Event>, start: int, end: int, max_ms: int) -> int {
    fx_mul_s(
        fx_sub_s(interpolate_s(s, end, max_ms), interpolate_s(s, start, max_ms)),
        fx_sub_s(end, start),
    )
}

/// The tracking pipeline: input scale, acceleration curve, overscroll
/// handling, output scale, in that fixed order.
pub open spec fn tracked_velocity_s(m: Interpolator, cfg: Config, start: int, end: int, pos: int)
    -> int {
    let sv = sample_velocity_s(m.events@, start, end, cfg.max_ms_without_zero_injection as int);
    let ps = fx_mul_s(sv, cfg.pre_accel_scale_velocity as int);
    let ac = accelerate_s(ps, m.source.spec_accelerates(), cfg.accel_decel_descriminant as int);
    let ho = handle_overscroll_s(
        pos,
        m.track_bound_lower as int,
        m.track_bound_upper as int,
        m.source.spec_overscrolls(),
        cfg.overscroll_elasticity_coefficient as int,
        ac,
    );
    fx_mul_s(ho, cfg.post_accel_scale_velocity as int)
}

/// The phase-dependent velocity transform of one integration step, and
/// the bounce state it leaves behind.
pub open spec fn step_velocity_s(
    m: Interpolator,
    cfg: Config,
    start: int,
    end: int,
    pos: int,
    v: int,
) -> (int, BounceState) {
    match m.current_phase {
        Phase::Inactive => (0, m.bouncing),
        Phase::Interpolating => (
            tracked_velocity_s(m, cfg, start, end, pos),
            BounceState::Normal,
        ),
        Phase::Released(rt) => {
            if rt < start && rt >= end {
                (fx_mul_s(v, cfg.fling_boost_constant_factor as int), m.bouncing)
            } else if rt < start {
                let b = bounce_state_after_s(
                    m.bouncing,
                    pos,
                    m.track_bound_lower as int,
                    m.track_bound_upper as int,
                );
                let bv = bounce_vel_s(
                    b,
                    pos,
                    m.track_bound_lower as int,
                    m.track_bound_upper as int,
                    fx_sub_s(end, start),
                    v,
                    cfg.overscroll_spring_constant as int,
                    cfg.content_mass_value as int,
                    cfg.bounce_damp_factor as int,
                );
                (decay_s(fx_sub_s(end, start), bv), b)
            } else {
                (tracked_velocity_s(m, cfg, start, end, pos), BounceState::Normal)
            }
        },
    }
}

impl Interpolator {
    /// Frictional decay of a released velocity; see [`decay_s`]. Friction
    /// is strictly dissipative: the returned magnitude never exceeds the
    /// old one and the sign is never flipped.
    pub fn decay(&self, start: i64, end: i64, position: i64, old_velocity: i64) -> (r: i64)
        requires
            start <= end,
            fx_ok(old_velocity as int),
        ensures
            r as int == decay_s(fx_sub_s(end as int, start as int), old_velocity as int),
            fx_ok(r as int),
            fx_abs(r as int) <= fx_abs(old_velocity as int),
            r == 0 || ((r < 0) == (old_velocity < 0)),
    {
        let _ = position;
        if old_velocity == 0 {
            return 0;
        }
        let timedelta = fx_sub(end, start);
        let abs_vel = fx_abs_val(old_velocity);
        let ff = crate::fixed::friction_factor(abs_vel);
        let slope = -fx_mul(DECAY_SLOPE_COEFFICIENT, ff);
        let decrement = fx_mul(slope, timedelta);
        let new_vel = fx_add(abs_vel, decrement);
        let floored: i64 = if new_vel < 0 {
            0
        } else {
            new_vel
        };
        proof {
            assert(decrement <= 0);
            assert(floored <= abs_vel);
        }
        if old_velocity < 0 {
            -floored
        } else {
            floored
        }
    }

    /// The power-law acceleration curve; see [`accelerate_s`].
    pub fn accelerate(&self, velocity: i64, config: &Config) -> (r: i64)
        requires
            config.wf(),
            fx_ok(velocity as int),
        ensures
            r as int == accelerate_s(
                velocity as int,
                self.source.spec_accelerates(),
                config.accel_decel_descriminant as int,
            ),
            fx_ok(r as int),
    {
        if self.source.accelerates() {
            let x = fx_div(fx_abs_val(velocity), config.accel_decel_descriminant);
            let p = crate::fixed::frac_pow_two_fifths(x);
            let y = fx_mul(fx_mul(x, p), config.accel_decel_descriminant);
            if velocity < 0 {
                -y
            } else {
                y
            }
        } else {
            velocity
        }
    }

    /// Velocity transform while dragging outside the bounds; see
    /// [`handle_overscroll_s`].
    pub fn handle_overscroll(
        &self,
        start: i64,
        end: i64,
        position: i64,
        velocity: i64,
        config: &Config,
    ) -> (r: i64)
        requires
            fx_ok(position as int),
            fx_ok(velocity as int),
        ensures
            r as int == handle_overscroll_s(
                position as int,
                self.track_bound_lower as int,
                self.track_bound_upper as int,
                self.source.spec_overscrolls(),
                config.overscroll_elasticity_coefficient as int,
                velocity as int,
            ),
            fx_ok(r as int),
    {
        let _ = start;
        let _ = end;
        if self.outside_bounds(position) {
            if self.source.overscrolls() {
                let outside_by = if position > self.track_bound_upper {
                    if velocity < 0 {
                        return velocity;
                    }
                    fx_sub(position, self.track_bound_upper)
                } else {
                    if velocity > 0 {
                        return velocity;
                    }
                    fx_sub(self.track_bound_lower, position)
                };
                let denom = fx_mul(outside_by, config.overscroll_elasticity_coefficient);
                if denom == 0 {
                    if velocity > 0 {
                        FX_MAX
                    } else if velocity < 0 {
                        -FX_MAX
                    } else {
                        0
                    }
                } else {
                    fx_mul(velocity, fx_div(FX_SCALE, denom))
                }
            } else {
                if velocity < 0 && position < self.track_bound_upper {
                    0
                } else if velocity > 0 && position > self.track_bound_lower {
                    0
                } else {
                    velocity
                }
            }
        } else {
            velocity
        }
    }

    /// One damped-spring bounce step; remembers which edge is being sprung
    /// against until the content re-enters the track. See [`bounce_vel_s`].
    pub fn bounce(
        &mut self,
        start: i64,
        end: i64,
        position: i64,
        old_velocity: i64,
        config: &Config,
    ) -> (r: i64)
        requires
            old(self).wf(),
            config.wf(),
            fx_ok(position as int),
            fx_ok(old_velocity as int),
        ensures
            final(self).wf(),
            final(self).bouncing == bounce_state_after_s(
                old(self).bouncing,
                position as int,
                old(self).track_bound_lower as int,
                old(self).track_bound_upper as int,
            ),
            r as int == bounce_vel_s(
                final(self).bouncing,
                position as int,
                old(self).track_bound_lower as int,
                old(self).track_bound_upper as int,
                fx_sub_s(end as int, start as int),
                old_velocity as int,
                config.overscroll_spring_constant as int,
                config.content_mass_value as int,
                config.bounce_damp_factor as int,
            ),
            fx_ok(r as int),
            *final(self) == (Interpolator { bouncing: final(self).bouncing, ..*old(self) }),
    {
        if self.outside_bounds(position) {
            let trackposition = if position > self.track_bound_upper {
                TrackPosition::Bottom
            } else {
                TrackPosition::Top
            };
            self.bouncing = BounceState::Bouncing(trackposition);
        }
        match self.bouncing {
            BounceState::Normal => old_velocity,
            BounceState::Bouncing(trackposition) => {
                let anchor = match trackposition {
                    TrackPosition::Top => self.track_bound_lower,
                    TrackPosition::Bottom => self.track_bound_upper,
                };
                let displacement = fx_sub(position, anchor);
                let force = fx_mul(-displacement, config.overscroll_spring_constant);
                let timedelta = fx_sub(end, start);
                let acceleration = fx_div(force, config.content_mass_value);
                let velocity = fx_add(old_velocity, fx_mul(acceleration, timedelta));
                fx_mul(velocity, config.bounce_damp_factor)
            },
        }
    }

    /// Estimate the velocity over `[start, end]` from the event curve; see
    /// [`sample_velocity_s`].
    pub fn sample_velocity(&self, start: i64, end: i64, config: &Config) -> (r: i64)
        requires
            self.wf(),
            config.wf(),
            fx_ok(start as int),
            fx_ok(end as int),
        ensures
            r as int == sample_velocity_s(
                self.events@,
                start as int,
                end as int,
                config.max_ms_without_zero_injection as int,
            ),
            fx_ok(r as int),
    {
        let p1 = self.interpolate(start, config);
        let p2 = self.interpolate(end, config);
        let timedelta = fx_sub(end, start);
        fx_mul(fx_sub(p2, p1), timedelta)
    }

    /// The tracking pipeline over one step; resets the bounce state. See
    /// [`tracked_velocity_s`].
    fn tracked_velocity(&mut self, start: i64, end: i64, position: i64, config: &Config) -> (r:
        i64)
        requires
            old(self).wf(),
            config.wf(),
            fx_ok(start as int),
            fx_ok(end as int),
            fx_ok(position as int),
        ensures
            final(self).wf(),
            r as int == tracked_velocity_s(*old(self), *config, start as int, end as int,
                position as int),
            fx_ok(r as int),
            final(self).bouncing == BounceState::Normal,
            *final(self) == (Interpolator { bouncing: BounceState::Normal, ..*old(self) }),
    {
        self.bouncing = BounceState::Normal;
        let sv = self.sample_velocity(start, end, config);
        let ps = self.pre_scale(sv, config);
        let ac = self.accelerate(ps, config);
        let ho = self.handle_overscroll(start, end, position, ac, config);
        self.post_scale(ho, config)
    }

    /// The phase-dependent velocity of one integration step; see
    /// [`step_velocity_s`]. Only the bounce state may change.
    pub fn step_velocity(
        &mut self,
        start: i64,
        end: i64,
        position: i64,
        old_velocity: i64,
        config: &Config,
    ) -> (r: i64)
        requires
            old(self).wf(),
            config.wf(),
            start <= end,
            fx_ok(start as int),
            fx_ok(end as int),
            fx_ok(position as int),
            fx_ok(old_velocity as int),
        ensures
            final(self).wf(),
            r as int == step_velocity_s(*old(self), *config, start as int, end as int,
                position as int, old_velocity as int).0,
            final(self).bouncing == step_velocity_s(*old(self), *config, start as int,
                end as int, position as int, old_velocity as int).1,
            fx_ok(r as int),
            *final(self) == (Interpolator { bouncing: final(self).bouncing, ..*old(self) }),
    {
        match self.current_phase {
            Phase::Released(release_time) => {
                if release_time < start && release_time >= end {
                    self.fling_boost(old_velocity, config)
                } else if release_time < start {
                    let b = self.bounce(start, end, position, old_velocity, config);
                    self.decay(start, end, position, b)
                } else {
                    self.tracked_velocity(start, end, position, config)
                }
            },
            Phase::Interpolating => self.tracked_velocity(start, end, position, config),
            Phase::Inactive => 0,
        }
    }
}

/// Idle bookkeeping after a sample: while released, a position equal to
/// the previous one or a velocity below the idle threshold counts one more
/// idle frame (else the count restarts), and once the count passes the
/// configured threshold the axis goes inactive. While interpolating the
/// count is pinned at zero.
pub open spec fn idle_applied(m: Interpolator, cfg: Config, position: i64, velocity: i64)
    -> Interpolator {
    match m.current_phase {
        Phase::Released(rt) => {
            let flips = if position == m.last_value || fx_abs(velocity as int)
                < cfg.min_velocity_to_idle as int {
                if m.flips_same_value < u64::MAX {
                    (m.flips_same_value + 1) as u64
                } else {
                    u64::MAX
                }
            } else {
                0u64
            };
            let phase = if flips > cfg.flips_to_idle {
                Phase::Inactive
            } else {
                m.current_phase
            };
            Interpolator {
                flips_same_value: flips,
                last_value: position,
                current_phase: phase,
                ..m
            }
        },
        Phase::Interpolating => Interpolator { flips_same_value: 0, ..m },
        Phase::Inactive => m,
    }
}

/// Whether the gap between `time` and the newest event says the gesture
/// was silently abandoned: only while interpolating, and only when the gap
/// exceeds the scaled smallest observed inter-event gap or the absolute
/// maximum.
pub open spec fn coast_trips(m: Interpolator, cfg: Config, time: i64) -> bool {
    &&& m.current_phase is Interpolating
    &&& m.events@.len() > 0
    &&& {
        let delta = fx_abs(fx_sub_s(time as int, m.events@.last().time as int));
        ||| delta > fx_mul_s(m.min_tick_period as int, cfg.ticks_to_coast as int)
        ||| delta > cfg.max_ms_without_zero_injection as int
    }
}

/// The state after the anti-coast guard: a tripped guard behaves as an
/// interrupt (inactive, gap statistics forgotten); otherwise nothing
/// changes.
pub open spec fn coast_applied(m: Interpolator, cfg: Config, time: i64) -> Interpolator {
    if coast_trips(m, cfg, time) {
        Interpolator {
            current_phase: Phase::Inactive,
            min_tick_period: TICK_PERIOD_INFINITE,
            ..m
        }
    } else {
        m
    }
}

/// Fixed-step integration of the velocity transform from `cur` to `endt`:
/// the interval is partitioned into `cfg.timestep`-sized subintervals (the
/// last may be shorter); over each, the stepped velocity is computed, the
/// old and new velocities are summed and divided by the timestep, and the
/// subinterval length times that rate is accumulated into the position.
/// Returns the final position, velocity and bounce state.
pub open spec fn integrate_s(
    m: Interpolator,
    cfg: Config,
    cur: int,
    endt: int,
    pos: int,
    vel: int,
) -> (int, int, BounceState)
    decreases endt - cur,
        when cfg.timestep > 0
{
    if cur == endt {
        (pos, vel, m.bouncing)
    } else {
        let step = cfg.timestep as int;
        let e = if endt - cur < step {
            endt
        } else {
            cur + step
        };
        let sv = step_velocity_s(m, cfg, cur, e, pos, vel);
        let vps = fx_div_s(fx_add_s(sv.0, vel), step);
        let integral = fx_mul_s(fx_sub_s(e, cur), vps);
        let pos2 = fx_add_s(pos, integral);
        if endt - cur < step {
            (pos2, sv.0, sv.1)
        } else {
            integrate_s(Interpolator { bouncing: sv.1, ..m }, cfg, e, endt, pos2, sv.0)
        }
    }
}

/// The integration starting point: the last memoized sample, or a
/// standstill at the requested time when none exists.
pub open spec fn sample_baseline(m: Interpolator, time: i64) -> Sample {
    if m.samples@.len() > 0 {
        m.samples@.last()
    } else {
        Sample { time, velocity: 0, position: 0 }
    }
}

/// What one `sample` call integrates: from the baseline sample's time to
/// the requested time, both shifted by the configured window offset.
pub open spec fn sample_integration(m: Interpolator, cfg: Config, time: i64) -> (
    int,
    int,
    BounceState,
) {
    let last = sample_baseline(m, time);
    integrate_s(
        m,
        cfg,
        fx_add_s(last.time as int, cfg.shift_window_ms as int),
        fx_add_s(time as int, cfg.shift_window_ms as int),
        last.position as int,
        last.velocity as int,
    )
}

impl Interpolator {
    /// Idle bookkeeping after a sample; see [`idle_applied`].
    pub fn check_idle(&mut self, position: i64, velocity: i64, config: &Config)
        requires
            old(self).wf(),
            fx_ok(position as int),
            fx_ok(velocity as int),
        ensures
            final(self).wf(),
            *final(self) == idle_applied(*old(self), *config, position, velocity),
    {
        match self.current_phase {
            Phase::Released(_) => {
                if position == self.last_value || fx_abs_val(velocity)
                    < config.min_velocity_to_idle {
                    if self.flips_same_value < u64::MAX {
                        self.flips_same_value = self.flips_same_value + 1;
                    }
                } else {
                    self.flips_same_value = 0;
                }
                self.last_value = position;
                if self.flips_same_value > config.flips_to_idle {
                    self.current_phase = Phase::Inactive;
                }
            },
            Phase::Interpolating => {
                self.flips_same_value = 0;
            },
            Phase::Inactive => {},
        }
    }

    /// The anti-coast guard; see [`coast_applied`]. A gesture whose events
    /// have silently stopped is interrupted instead of being extrapolated
    /// indefinitely from stale drag data.
    pub fn prevent_coast(&mut self, time: i64, config: &Config)
        requires
            old(self).wf(),
            fx_ok(time as int),
        ensures
            final(self).wf(),
            *final(self) == coast_applied(*old(self), *config, time),
    {
        match self.current_phase {
            Phase::Interpolating => {
                if self.events.len() > 0 {
                    let evt = self.events[self.events.len() - 1];
                    let delta = fx_abs_val(fx_sub(time, evt.time));
                    if delta > fx_mul(self.min_tick_period, config.ticks_to_coast) || delta
                        > config.max_ms_without_zero_injection {
                        self.signal_interrupt(time);
                    }
                }
            },
            _ => {},
        }
    }

    /// The single sampling entry point, expected once per rendered frame
    /// with non-decreasing times.
    ///
    /// Runs the anti-coast guard, integrates the velocity transform from
    /// the last memoized sample to `time`, memoizes the result, culls both
    /// histories to their configured bounds and applies idle bookkeeping;
    /// returns the integrated position.
    pub fn sample(&mut self, time: i64, config: &Config) -> (r: i64)
        requires
            old(self).wf(),
            config.wf(),
            fx_ok(time as int),
            old(self).samples@.len() > 0 ==> old(self).samples@.last().time <= time,
        ensures
            final(self).wf(),
            fx_ok(r as int),
            ({
                let m1 = coast_applied(*old(self), *config, time);
                let tr = sample_integration(m1, *config, time);
                let new_sample = Sample { time, velocity: tr.1 as i64, position: tr.0 as i64 };
                &&& r as int == tr.0
                &&& final(self).samples@ == culled(
                    m1.samples@.push(new_sample),
                    config.sample_expiry_count as int,
                )
                &&& final(self).events@ == culled(m1.events@, config.event_expiry_count as int)
                &&& *final(self) == idle_applied(
                    (Interpolator {
                        bouncing: tr.2,
                        samples: final(self).samples,
                        events: final(self).events,
                        ..m1
                    }),
                    *config,
                    new_sample.position,
                    new_sample.velocity,
                )
            }),
    {
        self.prevent_coast(time, config);

        let ghost m1 = *self;

        let last_sample: Sample = if self.samples.len() > 0 {
            self.samples[self.samples.len() - 1]
        } else {
            Sample { time, velocity: 0, position: 0 }
        };

        let start0 = fx_add(last_sample.time, config.shift_window_ms);
        let endt = fx_add(time, config.shift_window_ms);

        let mut cur = start0;
        let mut cur_position = last_sample.position;
        let mut cur_velocity = last_sample.velocity;

        while cur != endt
            invariant
                self.wf(),
                config.wf(),
                *self == (Interpolator { bouncing: self.bouncing, ..m1 }),
                fx_ok(cur as int),
                fx_ok(endt as int),
                fx_ok(cur_position as int),
                fx_ok(cur_velocity as int),
                cur <= endt,
                integrate_s(*self, *config, cur as int, endt as int, cur_position as int,
                    cur_velocity as int) == integrate_s(m1, *config, start0 as int, endt as int,
                    last_sample.position as int, last_sample.velocity as int),
            decreases endt - cur,
        {
            let (start, end): (i64, i64) = if endt - cur < config.timestep {
                (cur, endt)
            } else {
                (cur, cur + config.timestep)
            };
            let stepped_velocity = self.step_velocity(start, end, cur_position, cur_velocity,
                config);
            let velocity_per_step = fx_div(fx_add(stepped_velocity, cur_velocity),
                config.timestep);
            let time_delta = fx_sub(end, start);
            let integral = fx_mul(time_delta, velocity_per_step);
            cur_position = fx_add(cur_position, integral);
            cur_velocity = stepped_velocity;
            cur = end;
        }

        self.samples.push_back(Sample { time, velocity: cur_velocity, position: cur_position });
        self.cull(config);
        self.check_idle(cur_position, cur_velocity, config);

        cur_position
    }
}

/// A position outside the closed track interval.
pub open spec fn spec_outside_bounds(position: int, lower: int, upper: int) -> bool {
    position > upper || position < lower
}

/// The sliding-window bound: the `bound` most recent entries of `s`.
pub open spec fn culled<T>(s: Seq<T>, bound: int) -> Seq<T> {
    if s.len() <= bound {
        s
    } else {
        s.subrange(s.len() - bound, s.len() as int)
    }
}


/// Law: for two events at increasing times, two-point interpolation
/// reproduces both endpoints exactly and, between them, never leaves the
/// interval spanned by the two values.
pub proof fn lemma_linear_interpolation_exact(e1: Event, e2: Event, t: int)
    requires
        (e1.time as int) < e2.time as int,
        fx_ok(e1.value as int),
        fx_ok(e2.value as int),
        -(FX_MAX as int) <= e2.value - e1.value <= FX_MAX as int,
        -(FX_MAX as int) <= e2.time - e1.time <= FX_MAX as int,
        e1.time as int <= t <= e2.time as int,
    ensures
        t == e1.time as int ==> sample_linear_s(e1, e2, t) == e1.value as int,
        t == e2.time as int ==> sample_linear_s(e1, e2, t) == e2.value as int,
        e1.value <= e2.value ==> e1.value as int <= sample_linear_s(e1, e2, t)
            <= e2.value as int,
        e2.value <= e1.value ==> e2.value as int <= sample_linear_s(e1, e2, t)
            <= e1.value as int,
{
    let v1 = e1.value as int;
    let v2 = e2.value as int;
    let dv = fx_sub_s(v2, v1);
    let dt = fx_sub_s(t, e1.time as int);
    let span = fx_sub_s(e2.time as int, e1.time as int);
    assert(dv == v2 - v1);
    assert(dt == t - e1.time as int);
    assert(span == e2.time - e1.time);
    assert(0 <= dt <= span);
    let num = fx_abs(dv) * dt;
    vstd::arithmetic::mul::lemma_mul_nonnegative(fx_abs(dv), dt);
    vstd::arithmetic::div_mod::lemma_div_pos_is_pos(num, span);
    vstd::arithmetic::mul::lemma_mul_inequality(dt, span, fx_abs(dv));
    vstd::arithmetic::mul::lemma_mul_is_commutative(dt, fx_abs(dv));
    vstd::arithmetic::mul::lemma_mul_is_commutative(span, fx_abs(dv));
    vstd::arithmetic::div_mod::lemma_div_is_ordered(num, fx_abs(dv) * span, span);
    vstd::arithmetic::div_mod::lemma_div_multiples_vanish(fx_abs(dv), span);
    let mag = num / span;
    assert(0 <= mag <= fx_abs(dv));
    let md = fx_muldiv_s(dv, dt, span);
    if dv >= 0 {
        assert(md == mag);
    } else {
        assert(md == fx_clip(-mag));
        assert(md == -mag);
    }
    assert(v1 + md == sample_linear_s(e1, e2, t) || !fx_ok(v1 + md));
    if t == e1.time as int {
        assert(dt == 0);
        vstd::arithmetic::mul::lemma_mul_by_zero_is_zero(fx_abs(dv));
        vstd::arithmetic::div_mod::lemma_div_of0(span);
        assert(mag == 0);
    }
    if t == e2.time as int {
        assert(dt == span);
        assert(mag == fx_abs(dv));
    }
}

/// Law: friction never increases the velocity magnitude, never flips the
/// sign, and maps zero to zero — decay is strictly dissipative.
pub proof fn lemma_decay_dissipative(dt: int, v: int)
    requires
        dt >= 0,
        fx_ok(v),
    ensures
        fx_abs(decay_s(dt, v)) <= fx_abs(v),
        decay_s(dt, v) == 0 || ((decay_s(dt, v) < 0) == (v < 0)),
        v == 0 ==> decay_s(dt, v) == 0,
        fx_ok(decay_s(dt, v)),
{
    if v != 0 {
        let m = fx_abs(v);
        crate::fixed::lemma_friction_factor_nonneg(m);
        let slope = -fx_mul_s(DECAY_SLOPE_COEFFICIENT as int, crate::fixed::friction_factor_s(m));
        assert(slope <= 0);
        assert(fx_mul_s(slope, dt) <= 0);
    }
}

/// Law: repeated decay calls monotonically reduce the velocity magnitude
/// toward zero and never cross its sign.
pub proof fn lemma_decay_iterated(dt1: int, dt2: int, v: int)
    requires
        dt1 >= 0,
        dt2 >= 0,
        fx_ok(v),
    ensures
        fx_abs(decay_s(dt2, decay_s(dt1, v))) <= fx_abs(decay_s(dt1, v)) <= fx_abs(v),
        decay_s(dt2, decay_s(dt1, v)) == 0 || ((decay_s(dt2, decay_s(dt1, v)) < 0) == (v < 0)),
{
    lemma_decay_dissipative(dt1, v);
    lemma_decay_dissipative(dt2, decay_s(dt1, v));
}

/// Law: while overscrolled on an overscrolling device, outward velocity
/// attenuates more the further outside the bound the content sits.
pub proof fn lemma_overscroll_attenuates(v: int, d1: int, d2: int, elasticity: int)
    requires
        0 <= v,
        0 <= d1 <= d2,
        0 <= elasticity,
        fx_mul_s(d1, elasticity) > 0,
    ensures
        0 <= over_attenuated_s(v, d2, elasticity) <= over_attenuated_s(v, d1, elasticity),
{
    let denom1 = fx_mul_s(d1, elasticity);
    let denom2 = fx_mul_s(d2, elasticity);
    vstd::arithmetic::mul::lemma_mul_inequality(d1, d2, elasticity);
    vstd::arithmetic::mul::lemma_mul_is_commutative(d1, elasticity);
    vstd::arithmetic::mul::lemma_mul_is_commutative(d2, elasticity);
    vstd::arithmetic::div_mod::lemma_div_is_ordered(
        d1 * elasticity,
        d2 * elasticity,
        FX_SCALE as int,
    );
    assert(0 < denom1 <= denom2);
    let f1 = fx_div_s(FX_SCALE as int, denom1);
    let f2 = fx_div_s(FX_SCALE as int, denom2);
    vstd::arithmetic::div_mod::lemma_div_is_ordered_by_denominator(
        (FX_SCALE as int) * (FX_SCALE as int),
        denom1,
        denom2,
    );
    vstd::arithmetic::div_mod::lemma_div_pos_is_pos(
        (FX_SCALE as int) * (FX_SCALE as int),
        denom2,
    );
    assert(0 <= f2 <= f1);
    vstd::arithmetic::mul::lemma_mul_inequality(f2, f1, v);
    vstd::arithmetic::mul::lemma_mul_is_commutative(f2, v);
    vstd::arithmetic::mul::lemma_mul_is_commutative(f1, v);
    vstd::arithmetic::mul::lemma_mul_nonnegative(v, f2);
    vstd::arithmetic::div_mod::lemma_div_is_ordered(v * f2, v * f1, FX_SCALE as int);
    vstd::arithmetic::div_mod::lemma_div_pos_is_pos(v * f2, FX_SCALE as int);
}

/// Law: once the overscroll distance is large enough that the fixed-point
/// attenuation denominator reaches one unit, outward velocity is never
/// amplified: the content cannot be accelerated further outside.
pub proof fn lemma_overscroll_never_accelerates_outward(
    pos: int,
    lower: int,
    upper: int,
    elasticity: int,
    v: int,
)
    requires
        pos > upper,
        0 <= v,
        fx_ok(v),
        fx_mul_s(fx_sub_s(pos, upper), elasticity) >= FX_SCALE as int,
    ensures
        0 <= handle_overscroll_s(pos, lower, upper, true, elasticity, v) <= v,
{
    let d = fx_sub_s(pos, upper);
    let denom = fx_mul_s(d, elasticity);
    let f = fx_div_s(FX_SCALE as int, denom);
    vstd::arithmetic::div_mod::lemma_div_is_ordered_by_denominator(
        (FX_SCALE as int) * (FX_SCALE as int),
        FX_SCALE as int,
        denom,
    );
    vstd::arithmetic::div_mod::lemma_div_multiples_vanish(FX_SCALE as int, FX_SCALE as int);
    vstd::arithmetic::div_mod::lemma_div_pos_is_pos(
        (FX_SCALE as int) * (FX_SCALE as int),
        denom,
    );
    assert(0 <= f <= FX_SCALE as int);
    vstd::arithmetic::mul::lemma_mul_inequality(f, FX_SCALE as int, v);
    vstd::arithmetic::mul::lemma_mul_is_commutative(f, v);
    vstd::arithmetic::mul::lemma_mul_is_commutative(FX_SCALE as int, v);
    vstd::arithmetic::mul::lemma_mul_nonnegative(v, f);
    vstd::arithmetic::div_mod::lemma_div_is_ordered(v * f, v * (FX_SCALE as int), FX_SCALE as int);
    vstd::arithmetic::div_mod::lemma_div_multiples_vanish(v, FX_SCALE as int);
    vstd::arithmetic::div_mod::lemma_div_pos_is_pos(v * f, FX_SCALE as int);
}

/// Repeated application of the idle bookkeeping with one constant signal.
pub open spec fn idle_iter(m: Interpolator, cfg: Config, position: i64, velocity: i64, n: nat)
    -> Interpolator
    decreases n,
{
    if n == 0 {
        m
    } else {
        idle_applied(idle_iter(m, cfg, position, velocity, (n - 1) as nat), cfg, position,
            velocity)
    }
}

proof fn lemma_idle_iter_state(m: Interpolator, cfg: Config, position: i64, velocity: i64, k: nat)
    requires
        m.current_phase matches Phase::Released(rt),
        m.flips_same_value == 0,
        position == m.last_value || fx_abs(velocity as int) < cfg.min_velocity_to_idle as int,
        cfg.flips_to_idle < u64::MAX,
    ensures
        idle_iter(m, cfg, position, velocity, k).current_phase is Inactive || {
            let s = idle_iter(m, cfg, position, velocity, k);
            &&& s.current_phase == m.current_phase
            &&& s.flips_same_value == k
            &&& k <= cfg.flips_to_idle
            &&& (k > 0 ==> s.last_value == position)
            &&& (k == 0 ==> s.last_value == m.last_value)
        },
    decreases k,
{
    if k > 0 {
        lemma_idle_iter_state(m, cfg, position, velocity, (k - 1) as nat);
    }
}

/// Law: feeding a released axis a constant idle signal (same position, or
/// velocity below the idle threshold) for more than the configured number
/// of frames drives the phase to inactive; while a pan keeps the phase
/// interpolating, the idle counter stays pinned at zero and no transition
/// happens.
pub proof fn lemma_idle_detection(
    m: Interpolator,
    cfg: Config,
    position: i64,
    velocity: i64,
    n: nat,
)
    requires
        m.current_phase matches Phase::Released(rt),
        m.flips_same_value == 0,
        position == m.last_value || fx_abs(velocity as int) < cfg.min_velocity_to_idle as int,
        cfg.flips_to_idle < u64::MAX,
        n > cfg.flips_to_idle,
    ensures
        idle_iter(m, cfg, position, velocity, n).current_phase is Inactive,
{
    lemma_idle_iter_state(m, cfg, position, velocity, n);
}

/// Law: while interpolating (an intervening pan), idle bookkeeping keeps
/// the phase and pins the idle counter at zero.
pub proof fn lemma_pan_prevents_idle(m: Interpolator, cfg: Config, position: i64, velocity: i64)
    requires
        m.current_phase is Interpolating,
    ensures
        idle_applied(m, cfg, position, velocity).current_phase is Interpolating,
        idle_applied(m, cfg, position, velocity).flips_same_value == 0,
{
}

/// Law: a tripped anti-coast guard forces the phase inactive and forgets
/// the gap statistics before integration proceeds — `sample` integrates
/// the guarded state, so a stale gesture can never keep coasting.
pub proof fn lemma_anti_coast(m: Interpolator, cfg: Config, time: i64)
    requires
        coast_trips(m, cfg, time),
    ensures
        coast_applied(m, cfg, time).current_phase is Inactive,
        coast_applied(m, cfg, time).min_tick_period == TICK_PERIOD_INFINITE,
        coast_applied(m, cfg, time).events == m.events,
        coast_applied(m, cfg, time).samples == m.samples,
{
}

} // verus!
