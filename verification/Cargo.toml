[package]
name = "harbor-router"
version = "0.1.0"
edition = "2021"
publish = false

[dependencies]
anyhow = "=1.0.104"
arc-swap = "=1.9.3"
async-trait = "=0.1.92"
axum = "=0.8.9"
bytes = "=1.12.1"
dashmap = "=6.2.1"
futures = "=0.3.34"
http = "=1.5.0"
moka = { version = "=0.12.16", features = ["sync"] }
prometheus = "=0.14.0"
redis = { version = "=1.8.1", features = ["tokio-rustls-comp", "sentinel"] }
reqwest = { version = "=0.12.28", default-features = false, features = ["rustls-tls", "json", "stream", "http2"] }
secrecy = "=0.10.3"
serde = { version = "=1.0.229", features = ["derive"] }
serde_json = "=1.0.154"
tokio = { version = "=1.54.1", features = ["full"] }
tracing = "=0.1.44"
