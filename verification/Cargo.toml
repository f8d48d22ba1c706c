[package]
name = "prim2d"
version = "0.1.0"
edition = "2021"
publish = false

[dependencies]
png = "=0.18.1"
pollster = "=1.0.1"
sdl3 = { version = "=0.20.0", features = ["raw-window-handle"] }
wgpu = "=30.0.1"
