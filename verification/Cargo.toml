[package]
name = "prism_proxy"
version = "0.1.0"
edition = "2021"
publish = false

[dependencies]
axum = "0.7"
bytes = "1"
chrono = "0.4"
dirs = "5"
futures = "0.3"
log = "0.4"
rand = "0.8"
regex = "1"
reqwest = { version = "0.12", default-features = false, features = ["stream", "gzip", "brotli", "deflate", "rustls-tls"] }
rusqlite = { version = "0.32", features = ["bundled"] }
serde = { version = "1", features = ["derive"] }
serde_json = "1"
tiktoken-rs = "*"
tokio = { version = "1", features = ["full"] }
uuid = { version = "1", features = ["v4"] }
