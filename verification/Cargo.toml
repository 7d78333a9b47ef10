[package]
name = "toki"
version = "0.1.0"
edition = "2021"
publish = false

[dependencies]
anyhow = "1"
axum = { version = "0.5", features = ["headers"] }
hyper = { version = "0.14", features = ["server", "http1", "tcp"] }
hyperlocal = "0.8"
listenfd = "1"
redis = { version = "0.23", features = ["tokio-comp"] }
serde = { version = "1", features = ["derive"] }
serde_json = "1"
tokio = { version = "1", features = ["full"] }
tracing = "0.1"
