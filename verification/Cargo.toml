[package]
name = "codex-ios-platform"
version = "0.1.0"
edition = "2021"
publish = false

[dependencies]
tokio = { version = "1", features = ["rt", "rt-multi-thread", "sync", "fs", "io-util", "io-std", "time"] }
tokio-util = "0.7"
serde_json = "1"
anyhow = "1"
tracing = "0.1"
