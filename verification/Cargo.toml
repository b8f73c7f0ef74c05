[package]
name = "niri_taskbar"
version = "0.1.0"
edition = "2021"
publish = false

[dependencies]
async-channel = "2"
async-stream = "0.3"
futures = "0.3"
niri-ipc = "*"
regex = "1"
serde = { version = "1", features = ["derive"] }
tracing = "0.1"
tracing-subscriber = { version = "0.3", features = ["env-filter"] }
waybar-cffi = "*"
