[package]
name = "webrtc_server"
version = "0.1.0"
edition = "2021"
publish = false

[dependencies]
anyhow = "1"
arrayref = "0.3"
axum = "0.6"
bytes = "1"
dashmap = "5"
log = "0.4"
simple_logger = "4"
str0m = "0.4"
tokio = { version = "1", features = ["full"] }
tower-http = { version = "0.4", features = ["cors"] }
triomphe = "0.1"
