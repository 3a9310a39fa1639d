[package]
name = "godot_wtransport"
version = "0.1.0"
edition = "2021"
publish = false

[dependencies]
wtransport = "0.7"
rustls = { version = "0.23", default-features = false, features = ["std"] }
tokio = { version = "1", features = ["rt-multi-thread", "sync", "time", "macros", "signal"] }
thiserror = "2"
anyhow = "1"
serde_json = "1"
tracing = "0.1"
tracing-subscriber = { version = "0.3", features = ["env-filter"] }
