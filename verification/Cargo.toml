[package]
name = "waypaper_engine"
version = "0.1.0"
edition = "2021"
publish = false

[dependencies]
lz4_flex = "=0.14.0"
ffmpeg-next = "=9.0.0"
anyhow = "1"
tracing = "0.1"
tracing-subscriber = "0.3"
image = { version = "=0.25.10", default-features = false }
serde = { version = "1", features = ["derive"] }
serde_json = "1"
linux-ipc = "*"
