[package]
name = "frame_core"
version = "0.1.0"
edition = "2021"
publish = false

[dependencies]
bytemuck = "1"
pollster = "0.2"
wgpu = "0.14"
winit = "0.27"
