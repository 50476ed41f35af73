[package]
name = "constellation_core"
version = "0.1.0"
edition = "2021"
publish = false

[dependencies]
url = "=2.5.8"
uuid = { version = "=1.29.0", features = ["v4"] }
serde = { version = "=1.0.229", features = ["derive"] }
serde_json = "=1.0.154"
thiserror = "=1.0.69"
tokio = { version = "=1.54.1", features = ["sync", "macros", "time", "rt"] }
tracing = "=0.1.44"
matrix-sdk = { version = "=0.7.1", default-features = false, features = ["rustls-tls"] }
