[package]
name = "maden"
version = "0.1.0"
edition = "2021"
publish = false

[dependencies]
serde = { version = "1", features = ["derive"] }
serde_json = "1"
hyper = { version = "1", features = ["http1", "http2", "server"] }
hyper-util = { version = "0.1", features = ["tokio", "server-auto", "http1", "http2"] }
http-body-util = "0.1"
tokio = { version = "1", features = ["rt-multi-thread", "net", "macros"] }
tokio-rustls = "0.26"
rustls = "0.23"
rustls-pemfile = "2"
toml = "0.8"
log = "0.4"
env_logger = "0.11"
