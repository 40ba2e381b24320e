[package]
name = "system_monitor"
version = "0.1.0"
edition = "2021"
publish = false

[dependencies]
axum = "0.7"
tokio = { version = "1", features = ["full"] }
sysinfo = "0.30"
serde_json = "1"
