//! Event interpretation library for scroll views.
//!
//! The crate turns a sparse, irregularly-timed stream of discrete pan/fling
//! events into a smoothly sampleable position-over-time function for one
//! scroll axis: tracking while a finger is down, kinetic release, frictional
//! decay and spring-like bouncing at the track boundaries. The caller adapts
//! its platform's raw input events and samples the trajectory once per frame.
//!
//! All physics runs in saturating fixed-point arithmetic (see [`fixed`]), so
//! every quantity stays inside a bounded range by construction.

use vstd::prelude::*;

pub mod circular_backqueue;
pub mod fixed;
pub mod interpolate;
pub mod ranged_map;

verus! {

use crate::fixed::fx_ok;

/// Identifies one of the two scroll axes.
#[derive(Clone, Copy, Debug, PartialEq, Eq, Structural)]
pub enum Axis {
    Horizontal,
    Vertical,
}

/// Passed along with events to indicate what kind of device they came from.
#[derive(Clone, Copy, Debug, PartialEq, Eq, Structural)]
pub enum Source {
    /// Device type is unknown; assume nothing.
    Undefined,
    /// A touchscreen: no acceleration, but tracking prediction.
    Touchscreen,
    /// A touchpad: accelerate input and perform tracking prediction.
    Touchpad,
    /// A coarse mousewheel reporting deltas of around 15 degrees.
    Mousewheel,
    /// A fine-grained mousewheel needing little or no smoothing.
    PreciseMousewheel,
    /// No smoothing or acceleration; the driver already does both.
    Passthrough,
    /// Like `Passthrough`, but fling events start a kinetic animation.
    KineticPassthrough,
    /// The device type last used.
    Previous,
}

impl Source {
    /// Whether content may be dragged past the track bounds on this device.
    pub fn overscrolls(&self) -> (r: bool)
        ensures
            r == self.spec_overscrolls(),
    {
        match self {
            Self::Touchscreen => true,
            Self::Touchpad => true,
            _ => false,
        }
    }

    pub open spec fn spec_overscrolls(self) -> bool {
        self is Touchscreen || self is Touchpad
    }

    /// Whether a fling on this device starts a kinetic animation.
    pub fn kinetic(&self) -> (r: bool)
        ensures
            r == self.spec_kinetic(),
    {
        match self {
            Self::Touchpad | Self::Touchscreen | Self::KineticPassthrough => true,
            _ => false,
        }
    }

    pub open spec fn spec_kinetic(self) -> bool {
        self is Touchpad || self is Touchscreen || self is KineticPassthrough
    }

    /// Whether input from this device runs through the acceleration curve.
    pub fn accelerates(&self) -> (r: bool)
        ensures
            r == self.spec_accelerates(),
    {
        match self {
            Self::Touchpad => true,
            _ => false,
        }
    }

    pub open spec fn spec_accelerates(self) -> bool {
        self is Touchpad
    }
}

impl Default for Source {
    fn default() -> (r: Self)
        ensures
            r == Source::Undefined,
    {
        Source::Undefined
    }
}

/// Physics tunables, read as a consistent snapshot by every sampling call.
///
/// All scalar fields are fixed-point values in `FX_SCALE` increments per
/// unit (see [`fixed`]). The caller owns the store for these values and
/// passes a reference into each physics call, so hot reloading amounts to
/// handing in a fresh snapshot.
#[derive(Clone, Copy, Debug, PartialEq, Eq, Structural)]
pub struct Config {
    /// Maximum number of retained pan events.
    pub event_expiry_count: usize,
    /// Maximum number of retained trajectory samples.
    pub sample_expiry_count: usize,
    /// Multiple of the observed inter-event gap past which a gesture counts
    /// as abandoned.
    pub ticks_to_coast: i64,
    /// Length of one integration step.
    pub timestep: i64,
    /// Velocity magnitude under which a released trajectory counts as idle.
    pub min_velocity_to_idle: i64,
    /// Output scale applied after the acceleration curve.
    pub post_accel_scale_velocity: i64,
    /// Input scale applied before the acceleration curve.
    pub pre_accel_scale_velocity: i64,
    /// Offset added to both ends of the integration window.
    pub shift_window_ms: i64,
    /// Strength of the hyperbolic attenuation while overscrolled.
    pub overscroll_elasticity_coefficient: i64,
    /// Mass used by the bounce spring model.
    pub content_mass_value: i64,
    /// Spring constant of the bounce model.
    pub overscroll_spring_constant: i64,
    /// Damping factor applied to the bounce velocity each step.
    pub bounce_damp_factor: i64,
    /// Absolute event gap past which a gesture counts as abandoned; also the
    /// divisor of the single-event interpolation fallback.
    pub max_ms_without_zero_injection: i64,
    /// Multiplier reserved for the first event of a gesture.
    pub multiply_first_event: i64,
    /// Pivot of the power-law acceleration curve.
    pub accel_decel_descriminant: i64,
    /// One-time velocity multiplier of the fling boost window.
    pub fling_boost_constant_factor: i64,
    /// Number of idle frames after which a released trajectory stops.
    pub flips_to_idle: u64,
}

impl Config {
    /// The divisors and coefficients a sampling call relies on.
    pub open spec fn wf(self) -> bool {
        &&& self.timestep > 0
        &&& self.max_ms_without_zero_injection > 0
        &&& self.content_mass_value > 0
        &&& self.accel_decel_descriminant > 0
        &&& fx_ok(self.ticks_to_coast as int)
        &&& fx_ok(self.timestep as int)
        &&& fx_ok(self.min_velocity_to_idle as int)
        &&& fx_ok(self.post_accel_scale_velocity as int)
        &&& fx_ok(self.pre_accel_scale_velocity as int)
        &&& fx_ok(self.shift_window_ms as int)
        &&& fx_ok(self.overscroll_elasticity_coefficient as int)
        &&& fx_ok(self.content_mass_value as int)
        &&& fx_ok(self.overscroll_spring_constant as int)
        &&& fx_ok(self.bounce_damp_factor as int)
        &&& fx_ok(self.max_ms_without_zero_injection as int)
        &&& fx_ok(self.multiply_first_event as int)
        &&& fx_ok(self.accel_decel_descriminant as int)
        &&& fx_ok(self.fling_boost_constant_factor as int)
    }
}

impl Default for Config {
    /// The stock tuning, in fixed-point increments.
    fn default() -> (r: Self)
        ensures
            r.wf(),
            r.timestep == 100_000,
            r.event_expiry_count == 20,
            r.sample_expiry_count == 20,
            r.flips_to_idle == 20,
            r.ticks_to_coast == 1_600_000,
            r.min_velocity_to_idle == 2_000,
            r.post_accel_scale_velocity == 19_000_000,
            r.pre_accel_scale_velocity == 1_000_000,
            r.shift_window_ms == 0,
            r.overscroll_elasticity_coefficient == 1_000_000,
            r.content_mass_value == 6_000_000_000,
            r.overscroll_spring_constant == 400_000,
            r.bounce_damp_factor == 997_400,
            r.max_ms_without_zero_injection == 150_000_000,
            r.multiply_first_event == 500_000_000,
            r.accel_decel_descriminant == 10_000_000,
            r.fling_boost_constant_factor == 2_000_000,
    {
        Config {
            timestep: 100_000,
            min_velocity_to_idle: 2_000,
            event_expiry_count: 20,
            sample_expiry_count: 20,
            ticks_to_coast: 1_600_000,
            flips_to_idle: 20,
            post_accel_scale_velocity: 19_000_000,
            pre_accel_scale_velocity: 1_000_000,
            shift_window_ms: 0,
            overscroll_elasticity_coefficient: 1_000_000,
            content_mass_value: 6_000_000_000,
            overscroll_spring_constant: 400_000,
            bounce_damp_factor: 997_400,
            max_ms_without_zero_injection: 150_000_000,
            multiply_first_event: 500_000_000,
            accel_decel_descriminant: 10_000_000,
            fling_boost_constant_factor: 2_000_000,
        }
    }
}

} // verus!
