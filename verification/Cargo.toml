[package]
name = "snowfall"
version = "0.1.0"
edition = "2021"
publish = false

[dependencies]
wgpu = { version = "=0.19.4", default-features = false, features = ["wgsl", "metal"] }
raw-window-handle = "=0.5.2"
bytemuck = { version = "=1.25.2", features = ["derive"] }
rand = "=0.8.8"
pollster = "=0.3.0"
anyhow = "=1.0.104"
thiserror = "=1.0.69"
tracing = "=0.1.44"
tracing-subscriber = { version = "=0.3.23", features = ["env-filter"] }
objc2 = "0.4"
icrate = "0.0.4"
core-graphics = "0.23"
wrld = "=1.0.0"
