[package]
name = "rpc_toolkit"
version = "0.1.0"
edition = "2021"
publish = false

[dependencies]
yajrc = "=0.1.3"
serde = { version = "=1.0.229", features = ["derive"] }
serde_json = "=1.0.154"
clap = { version = "=4.6.7", features = ["derive"] }
imbl-value = "=0.4.4"
futures = "=0.3.34"
tokio = { version = "=1.54.1", features = ["rt", "io-util", "macros"] }
syn = { version = "=2.0.119", features = ["full"] }
axum = "=0.8.9"
http-body-util = "=0.1.5"
quote = "=1.0.47"
reqwest = { version = "*", default-features = false }
