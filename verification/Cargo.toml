[package]
name = "active_call"
version = "0.1.0"
edition = "2021"
publish = false

[dependencies]
anyhow = "1"
async-trait = "0.1"
audio-codec = "*"
bytes = "1"
chrono = "0.4"
futures = "0.3"
glob = "0.3"
rand = "0.9"
regex = "1"
rsip = "0.4"
rsipstack = "*"
rustrtc = "*"
serde = { version = "1", features = ["derive"] }
serde_json = "1"
tokio = { version = "1", features = ["rt", "sync", "time", "macros"] }
tokio-util = "0.7"
tracing = "0.1"
uuid = { version = "1", features = ["v4"] }
