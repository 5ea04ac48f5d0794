[package]
name = "demucs_core"
version = "0.1.0"
edition = "2021"
publish = false

[dependencies]
bytemuck = "*"
ndarray = { version = "*", features = ["rayon"] }
pollster = "*"
rayon = "*"
serde_json = "*"
wgpu = "*"
