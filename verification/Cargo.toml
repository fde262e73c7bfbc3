[package]
name = "telemetrywatch"
version = "0.1.0"
edition = "2021"
publish = false

[dependencies]
prometheus = "0.13"
axum = "*"
tokio = { version = "*", features = ["full"] }
anyhow = "*"
serde_json = "*"
tracing = "*"
tracing-subscriber = { version = "*", features = ["env-filter"] }
