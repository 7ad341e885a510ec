//! Decoded packet payloads and complete samples.
//!
//! A length-20 packet carries four orientation fields; a length-44 packet
//! carries at least ten motion fields, of which nine are used: angular
//! velocity, acceleration (in g, before scaling), and magnetic field. All
//! fields are IEEE-754 single-precision values carried as `u32` bit
//! patterns; unit conversion (degrees to radians, gravity scaling, sign
//! correction) is floating-point work done outside the verified core.

use vstd::prelude::*;

verus! {

/// Which firmware convention the four orientation fields follow: either the
/// quaternion components directly, or a flag followed by roll, pitch and yaw
/// in degrees from which the quaternion is derived (with yaw negated).
#[derive(Clone, Copy, Debug, PartialEq, Eq, Structural)]
pub enum OrientationEncoding {
    QuaternionDirect,
    EulerDerived,
}

/// Which firmware convention the motion fields follow: the nine used fields
/// start at index one (with a leading flag field) or at index zero.
#[derive(Clone, Copy, Debug, PartialEq, Eq, Structural)]
pub enum MotionConvention {
    BaseOne,
    BaseZero,
}

/// A payload held fewer fields than its packet type requires.
#[derive(Clone, Copy, Debug, PartialEq, Eq, Structural)]
pub enum DecodeError {
    MalformedPayload,
}

/// The four orientation fields of a length-20 packet, in wire order, as
/// IEEE-754 bit patterns.
#[derive(Clone, Copy, Debug, PartialEq, Eq, Structural)]
pub struct AngleData {
    pub f0: u32,
    pub f1: u32,
    pub f2: u32,
    pub f3: u32,
}

/// The nine motion fields of a length-44 packet as IEEE-754 bit patterns:
/// angular velocity in rad/s, acceleration in g (unscaled, sign as sent),
/// magnetic field in raw device units.
#[derive(Clone, Copy, Debug, PartialEq, Eq, Structural)]
pub struct MotionData {
    pub gyro_x: u32,
    pub gyro_y: u32,
    pub gyro_z: u32,
    pub accel_x: u32,
    pub accel_y: u32,
    pub accel_z: u32,
    pub mag_x: u32,
    pub mag_y: u32,
    pub mag_z: u32,
}

/// The latest orientation and the latest motion data known at emission time;
/// the two packet kinds arrive independently, so the halves need not stem
/// from the same physical instant.
#[derive(Clone, Copy, Debug, PartialEq, Eq, Structural)]
pub struct DecodedSample {
    pub angle: AngleData,
    pub motion: MotionData,
}

/// Index of the first used motion field under the given convention.
pub open spec fn motion_base(convention: MotionConvention) -> int {
    match convention {
        MotionConvention::BaseOne => 1,
        MotionConvention::BaseZero => 0,
    }
}

/// The orientation fields a well-formed four-field payload decodes to.
pub open spec fn spec_angle_data(words: Seq<u32>) -> AngleData {
    AngleData { f0: words[0], f1: words[1], f2: words[2], f3: words[3] }
}

/// The motion fields a well-formed ten-field payload decodes to.
pub open spec fn spec_motion_data(words: Seq<u32>, convention: MotionConvention) -> MotionData {
    let b = motion_base(convention);
    MotionData {
        gyro_x: words[b],
        gyro_y: words[b + 1],
        gyro_z: words[b + 2],
        accel_x: words[b + 3],
        accel_y: words[b + 4],
        accel_z: words[b + 5],
        mag_x: words[b + 6],
        mag_y: words[b + 7],
        mag_z: words[b + 8],
    }
}

/// Decodes the orientation fields of a length-20 packet. Fails exactly when
/// the payload holds fewer than four fields.
pub fn decode_angle_data(data: &Vec<u32>) -> (r: Result<AngleData, DecodeError>)
    ensures
        r is Ok <==> data@.len() >= 4,
        r is Ok ==> r.unwrap() == spec_angle_data(data@),
        r is Err ==> r == Result::<AngleData, DecodeError>::Err(DecodeError::MalformedPayload),
{
    if data.len() < 4 {
        return Err(DecodeError::MalformedPayload);
    }
    Ok(AngleData { f0: data[0], f1: data[1], f2: data[2], f3: data[3] })
}

/// Decodes the motion fields of a length-44 packet under the given field
/// convention. Fails exactly when the payload holds fewer fields than the
/// convention requires (ten from base one, nine from base zero).
pub fn decode_9dof_data(data: &Vec<u32>, convention: MotionConvention) -> (r: Result<
    MotionData,
    DecodeError,
>)
    ensures
        r is Ok <==> data@.len() >= motion_base(convention) + 9,
        r is Ok ==> r.unwrap() == spec_motion_data(data@, convention),
        r is Err ==> r == Result::<MotionData, DecodeError>::Err(DecodeError::MalformedPayload),
{
    let base: usize = match convention {
        MotionConvention::BaseOne => 1,
        MotionConvention::BaseZero => 0,
    };
    if data.len() < base + 9 {
        return Err(DecodeError::MalformedPayload);
    }
    Ok(
        MotionData {
            gyro_x: data[base],
            gyro_y: data[base + 1],
            gyro_z: data[base + 2],
            accel_x: data[base + 3],
            accel_y: data[base + 4],
            accel_z: data[base + 5],
            mag_x: data[base + 6],
            mag_y: data[base + 7],
            mag_z: data[base + 8],
        },
    )
}

} // verus!
