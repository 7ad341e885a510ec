//! Verified core of an IMU telemetry pipeline.
//!
//! The library turns an unreliable serial byte stream into validated sensor
//! packets, decodes their payloads into raw IEEE-754 fields (carried as `u32`
//! bit patterns, since the verified core performs no floating-point
//! arithmetic), merges the two independently arriving packet kinds into
//! complete samples, and drives the decision layer of a dead-reckoning
//! integrator. Floating-point unit conversion and device I/O live outside the
//! verified core.

pub mod checksum;
pub mod codec;
pub mod frame;
pub mod imu;
pub mod integrator;
pub mod sample;
