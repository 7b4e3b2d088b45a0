[package]
name = "gpu_staging"
version = "0.1.0"
edition = "2021"
publish = false

[dependencies]
wgpu = { version = "=30.0.1", features = ["noop"] }
bytemuck = "=1.25.2"
futures = "=0.3.34"
