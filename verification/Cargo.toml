[package]
name = "ntp_time_api"
version = "0.1.0"
edition = "2021"
publish = false

[dependencies]
anyhow = "*"
axum = { version = "*", features = ["ws"] }
futures-util = "*"
parking_lot = "*"
prometheus-client = "*"
rand = "*"
rsntp = "*"
serde_json = "*"
socket2 = "*"
tokio = { version = "*", features = ["full"] }
tower-http = { version = "*", features = ["limit", "timeout", "trace"] }
tracing = "*"
tracing-subscriber = { version = "*", features = ["env-filter", "json"] }
