[package]
name = "clip_tool"
version = "0.1.0"
edition = "2021"
publish = false

[dependencies]
serde = { version = "1", features = ["derive"] }
serde_json = "1"
chrono = "0.4"
sysinfo = "*"
tokio = { version = "1", features = ["rt-multi-thread", "time", "fs", "net", "sync", "io-util", "macros"] }
axum = "*"
trash = "*"
log = "0.4"
