[package]
name = "focus_tracker"
version = "0.1.0"
edition = "2021"
publish = false

[dependencies]
serde_json = "1"
axum = "*"
tokio = { version = "1", features = ["rt-multi-thread", "macros", "fs", "io-util", "sync", "net"] }
tower-http = { version = "*", features = ["fs", "cors"] }
