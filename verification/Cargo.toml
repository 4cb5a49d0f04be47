[package]
name = "gda_core"
version = "0.1.0"
edition = "2021"
publish = false

[dependencies]
wgpu = { version = "=30.0.1", features = ["glsl"] }
naga = "=30.0.1"
pollster = "=1.0.1"
bytemuck = "=1.25.2"
