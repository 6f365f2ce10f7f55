[package]
name = "rubiks_cube"
version = "0.1.0"
edition = "2021"
publish = false

[dependencies]
rand = "0.9"
cgmath = "0.18"
bytemuck = { version = "1", features = ["derive"] }
pollster = "0.4"
env_logger = "0.11"
winit = "0.30"
wgpu = "27"
