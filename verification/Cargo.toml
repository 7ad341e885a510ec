[package]
name = "imu_telemetry"
version = "0.1.0"
edition = "2021"
publish = false

[dependencies]
nalgebra = "*"
serialport = { version = "*", default-features = false }
