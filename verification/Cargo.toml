[package]
name = "rust_webgpu_game"
version = "0.1.0"
edition = "2021"
publish = false

[dependencies]
image = { version = "*", default-features = false, features = ["png", "jpeg"] }
gltf = "*"
bytemuck = { version = "*", features = ["derive"] }
winit = "*"
wgpu = "*"
pollster = "*"
web-time = "*"
cpal = "*"
