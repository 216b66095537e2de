[package]
name = "thrw"
version = "0.1.0"
edition = "2021"
publish = false

[dependencies]
uuid = { version = "=1.29.0", features = ["v4"] }
infer = "=0.22.0"
cookie = "*"
chrono = "=0.4.45"
serde = { version = "=1.0.229", features = ["derive"] }
serde_json = "=1.0.154"
serde_with = "=3.24.0"
tokio = { version = "=1.54.1", features = ["full"] }
youtube_dl = { version = "=0.10.0", features = ["tokio", "downloader-rustls-tls"] }
axum = "=0.8.9"
ffmpeg-sidecar = "=2.7.0"
dotenvy = "=0.15.7"
