[package]
name = "video_trim"
version = "0.1.0"
edition = "2021"
publish = false

[dependencies]
clap = { version = "4", features = ["derive"] }
ffmpeg-sidecar = { version = "*", default-features = false }
pbr = "1"
