//! Decision layer of the kinematic dead-reckoning integrator.
//!
//! The integrator is a two-state machine: before the first sample no valid
//! time step exists, so the first arrival only records its timestamp and
//! emits the zero estimate; afterwards each arrival yields the elapsed time
//! since the previous one, unless the clock reports a non-positive step,
//! which is a clock anomaly: that sample's integration is skipped (the
//! arrival time is still recorded, so one anomalous reading never corrupts
//! later steps). The floating-point vector integration that consumes the
//! elapsed time lives outside the verified core; timestamps are carried here
//! as nanosecond counts.

use vstd::prelude::*;

verus! {

/// Order of the floating-point operations in one integration step, chosen by
/// the consumer of `IntegrationStep::Advance`.
#[derive(Clone, Copy, Debug, PartialEq, Eq, Structural)]
pub enum IntegrationOrder {
    /// Device-compatible legacy order: body acceleration is scaled by the
    /// elapsed time first and the product is rotated into the world frame.
    ScaleBeforeRotate,
    /// Physically conventional order: body acceleration is rotated into the
    /// world frame first, then scaled by the elapsed time.
    RotateThenScale,
}

/// Integrator state: either no sample has arrived yet, or the arrival time
/// of the last sample is known.
#[derive(Clone, Copy, Debug, PartialEq, Eq, Structural)]
pub enum IntegratorPhase {
    Uninitialized,
    Integrating { prev_nanos: u64 },
}

/// What to do with one arriving sample.
#[derive(Clone, Copy, Debug, PartialEq, Eq, Structural)]
pub enum IntegrationStep {
    /// First sample: emit the zero position and velocity, integrate nothing.
    EmitZero,
    /// Non-positive elapsed time: skip integration for this sample.
    ClockAnomaly,
    /// Integrate over the given positive elapsed time.
    Advance { dt_nanos: u64 },
}

/// The decision for a sample arriving at `now_nanos` in the given phase.
pub open spec fn spec_step(phase: IntegratorPhase, now_nanos: u64) -> IntegrationStep {
    match phase {
        IntegratorPhase::Uninitialized => IntegrationStep::EmitZero,
        IntegratorPhase::Integrating { prev_nanos } => {
            if now_nanos <= prev_nanos {
                IntegrationStep::ClockAnomaly
            } else {
                IntegrationStep::Advance { dt_nanos: (now_nanos - prev_nanos) as u64 }
            }
        },
    }
}

impl IntegratorPhase {
    /// A sample arrived at `now_nanos`: decide what to integrate and record
    /// the arrival time. The decision is a pure function of the previous
    /// phase and the arrival time, so identical arrival sequences yield
    /// identical decision sequences.
    pub fn observe(&mut self, now_nanos: u64) -> (step: IntegrationStep)
        ensures
            step == spec_step(*old(self), now_nanos),
            *final(self) == (IntegratorPhase::Integrating { prev_nanos: now_nanos }),
            step is Advance ==> ((*old(self)) matches IntegratorPhase::Integrating { prev_nanos }
                && step == (IntegrationStep::Advance {
                dt_nanos: (now_nanos - prev_nanos) as u64,
            }) && now_nanos > prev_nanos),
    {
        let step = match *self {
            IntegratorPhase::Uninitialized => IntegrationStep::EmitZero,
            IntegratorPhase::Integrating { prev_nanos } => {
                if now_nanos <= prev_nanos {
                    IntegrationStep::ClockAnomaly
                } else {
                    IntegrationStep::Advance { dt_nanos: now_nanos - prev_nanos }
                }
            },
        };
        *self = IntegratorPhase::Integrating { prev_nanos: now_nanos };
        step
    }
}

} // verus!
