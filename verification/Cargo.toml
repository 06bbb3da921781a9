[package]
name = "retrix"
version = "0.1.0"
edition = "2021"
publish = false

[dependencies]
anyhow = "1"
async-stream = "0.3"
dirs-next = "2"
futures = "0.3"
matrix-sdk = { version = "=0.3.0", default-features = false, features = ["encryption", "rustls-tls"] }
ruma-identifiers = "=0.19.4"
serde = { version = "1", features = ["derive"] }
time = "=0.2.27"
tokio = { version = "1", features = ["rt", "sync"] }
toml = "0.5"
tracing-subscriber = "0.2"
url = "=2.5.8"
