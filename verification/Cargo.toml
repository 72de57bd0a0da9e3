[package]
name = "engram-dashboard-daemon"
version = "0.1.0"
edition = "2021"
publish = false

[dependencies]
uuid = { version = "1", features = ["v4"] }
serde = { version = "1", features = ["derive"] }
serde_json = "1"
tokio = { version = "1", features = ["full"] }
tokio-util = "*"
tracing = "0.1"
axum = "*"
http = "1"
tower-http = { version = "*", features = ["limit"] }
futures-util = "*"
rmcp = "*"
