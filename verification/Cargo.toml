[package]
name = "kode-bridge"
version = "0.5.0"
edition = "2021"
publish = false

[dependencies]
bytes = "1"
futures = "0.3"
http = "1"
interprocess = { version = "2", features = ["tokio"] }
libc = "0.2"
parking_lot = "0.12"
serde = { version = "1", features = ["derive"] }
serde_json = "1"
tokio = { version = "1", features = ["full"] }
tokio-stream = { version = "0.1", features = ["io-util"] }
tracing = "0.1"
widestring = "1"
