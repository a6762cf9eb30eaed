[package]
name = "gsplat-render-wgpu"
version = "0.1.0"
edition = "2021"
publish = false

[dependencies]
wgpu = "*"
bytemuck = { version = "1", features = ["derive"] }
thiserror = "2"
pollster = "0.4"
