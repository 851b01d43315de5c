[package]
name = "embedder"
version = "0.1.0"
edition = "2021"
publish = false

[dependencies]
reqwest = { version = "=0.12.28", default-features = false, features = ["charset", "http2", "json", "rustls-tls"] }
serde_json = "=1.0.154"
tracing = "=0.1.44"
