[package]
name = "xl_view"
version = "0.1.0"
edition = "2021"
publish = false

[dependencies]
clap = { version = "4", features = ["derive"] }
fontdue = "*"
half = "2"
kamadak-exif = "*"
pollster = "*"
rayon = "1"
roxmltree = "*"
thiserror = "2"
tracing = "0.1"
wgpu = { version = "*", default-features = false, features = ["std", "vulkan", "wgsl"] }
winit = "*"
