use imu_telemetry::integrator::{IntegrationStep, IntegratorPhase};
use nalgebra::{Rotation3, Vector3};

const NANOS_PER_SEC: f32 = 1_000_000_000.0;

/// One integration step in the order the pipeline performs it: the
/// body-frame acceleration is scaled by the elapsed time first, then rotated
/// into the world frame and accumulated.
fn integrate(
    v: &mut Vector3<f32>,
    p: &mut Vector3<f32>,
    rotation: &Rotation3<f32>,
    accel: Vector3<f32>,
    dt: f32,
) {
    *v += rotation.transform_vector(&(accel * dt));
    *p += *v * dt;
}

#[test]
fn first_sample_only_initializes() {
    let mut phase = IntegratorPhase::Uninitialized;
    let step = phase.observe(5_000);
    assert_eq!(step, IntegrationStep::EmitZero);
    assert_eq!(phase, IntegratorPhase::Integrating { prev_nanos: 5_000 });
}

#[test]
fn non_positive_dt_is_clock_anomaly() {
    let mut phase = IntegratorPhase::Uninitialized;
    assert_eq!(phase.observe(1_000), IntegrationStep::EmitZero);
    // Same instant: dt == 0 is an anomaly.
    assert_eq!(phase.observe(1_000), IntegrationStep::ClockAnomaly);
    // Clock went backwards: also an anomaly, but the arrival is recorded...
    assert_eq!(phase.observe(900), IntegrationStep::ClockAnomaly);
    // ...so the next sample recovers with a sane dt.
    assert_eq!(
        phase.observe(1_900),
        IntegrationStep::Advance { dt_nanos: 1_000 }
    );
}

#[test]
fn two_samples_ten_ms_apart_from_rest() {
    // Two samples 10 ms apart with constant world-frame acceleration
    // (0, 0, 1) m/s^2 from rest: velocity.z ~= 0.01 and position.z ~= 0.0001
    // after the second sample, in the pipeline's step order.
    let mut phase = IntegratorPhase::Uninitialized;
    let mut v = Vector3::zeros();
    let mut p = Vector3::zeros();
    let rotation = Rotation3::from_euler_angles(0.0, 0.0, 0.0);
    let accel = Vector3::new(0.0f32, 0.0, 1.0);

    assert_eq!(phase.observe(0), IntegrationStep::EmitZero);
    assert_eq!(v, Vector3::zeros());
    assert_eq!(p, Vector3::zeros());

    match phase.observe(10_000_000) {
        IntegrationStep::Advance { dt_nanos } => {
            assert_eq!(dt_nanos, 10_000_000);
            let dt = dt_nanos as f32 / NANOS_PER_SEC;
            integrate(&mut v, &mut p, &rotation, accel, dt);
        }
        _ => panic!("expected an integration step"),
    }
    assert!((v.z - 0.01).abs() < 1e-7);
    assert!((p.z - 0.0001).abs() < 1e-9);
    assert_eq!(v.x, 0.0);
    assert_eq!(v.y, 0.0);
}

#[test]
fn zero_acceleration_keeps_state_at_rest() {
    // Constant-zero acceleration at a fixed, nonzero orientation: velocity
    // and position stay exactly (0, 0, 0) for every sample after
    // initialization.
    let mut phase = IntegratorPhase::Uninitialized;
    let mut v = Vector3::zeros();
    let mut p = Vector3::zeros();
    let rotation = Rotation3::from_euler_angles(0.3f32, -0.2, 1.1);
    let accel = Vector3::new(0.0f32, 0.0, 0.0);

    assert_eq!(phase.observe(0), IntegrationStep::EmitZero);
    let mut now: u64 = 0;
    for _ in 0..50 {
        now += 3_700_000;
        match phase.observe(now) {
            IntegrationStep::Advance { dt_nanos } => {
                let dt = dt_nanos as f32 / NANOS_PER_SEC;
                integrate(&mut v, &mut p, &rotation, accel, dt);
            }
            _ => panic!("expected an integration step"),
        }
        assert_eq!(v, Vector3::zeros());
        assert_eq!(p, Vector3::zeros());
    }
}

#[test]
fn identical_input_sequences_integrate_bit_identically() {
    // Determinism: the same (dt, orientation, acceleration) sequence gives
    // bit-identical velocity and position trajectories on every run.
    let inputs: Vec<(u64, (f32, f32, f32), (f32, f32, f32))> = vec![
        (1_000_000, (0.1, 0.2, 0.3), (0.5, -1.0, 9.81)),
        (2_500_000, (0.0, -0.4, 0.9), (-0.25, 0.125, 1.5)),
        (900_000, (1.2, 0.7, -0.3), (3.0, 2.0, -1.0)),
        (16_000_000, (0.05, 0.0, 0.0), (0.1, 0.1, 0.1)),
    ];

    let run = |inputs: &[(u64, (f32, f32, f32), (f32, f32, f32))]| -> Vec<(u32, u32, u32, u32, u32, u32)> {
        let mut phase = IntegratorPhase::Uninitialized;
        let mut v = Vector3::zeros();
        let mut p = Vector3::zeros();
        let mut now: u64 = 0;
        assert_eq!(phase.observe(now), IntegrationStep::EmitZero);
        let mut out = Vec::new();
        for (dt_nanos, euler, accel) in inputs {
            now += dt_nanos;
            match phase.observe(now) {
                IntegrationStep::Advance { dt_nanos } => {
                    let dt = dt_nanos as f32 / NANOS_PER_SEC;
                    let rotation = Rotation3::from_euler_angles(euler.0, euler.1, euler.2);
                    let accel = Vector3::new(accel.0, accel.1, accel.2);
                    integrate(&mut v, &mut p, &rotation, accel, dt);
                }
                _ => panic!("expected an integration step"),
            }
            out.push((
                p.x.to_bits(),
                p.y.to_bits(),
                p.z.to_bits(),
                v.x.to_bits(),
                v.y.to_bits(),
                v.z.to_bits(),
            ));
        }
        out
    };

    let first = run(&inputs);
    let second = run(&inputs);
    assert_eq!(first, second);
}
