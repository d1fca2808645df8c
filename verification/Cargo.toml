[package]
name = "world_exchange"
version = "0.1.0"
edition = "2021"
publish = false

[dependencies]
bytemuck = { version = "=1.25.2", features = ["derive"] }
crossbeam-channel = "=0.5.17"
hecs = { version = "=0.7.7", features = ["macros"] }
nalgebra = "=0.30.1"
parking_lot = "=0.11.2"
rapier3d = "=0.11.3"
wgpu = "0.12"
winit = "0.26"

[dev-dependencies]
crossbeam-utils = "=0.8.23"
