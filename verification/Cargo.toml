[package]
name = "mesh2splat"
version = "0.1.0"
edition = "2021"
publish = false

[dependencies]
anyhow = "1"
bytemuck = { version = "1", features = ["derive"] }
clap = { version = "4", features = ["derive"] }
egui = "0.29"
egui-wgpu = "0.29"
egui-winit = { version = "0.29", default-features = false, features = ["wayland", "x11"] }
env_logger = "0.11"
futures = "0.3"
glam = "0.29"
gltf = "1"
pollster = "0.3"
rfd = { version = "0.15", default-features = false, features = ["xdg-portal", "tokio"] }
wgpu = "22"
winit = "0.30"
