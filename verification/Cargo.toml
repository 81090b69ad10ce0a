[package]
name = "cctray_proxy"
version = "0.1.0"
edition = "2021"
publish = false

[dependencies]
serde_json = "1"
chrono = "0.4"
itertools = "*"
serde = { version = "1", features = ["derive"] }
clap = { version = "4", features = ["derive"] }
tokio = { version = "1", features = ["full"] }
axum = "*"
axum-response-cache = "*"
reqwest = { version = "*", default-features = false, features = ["rustls-tls"] }
futures = "0.3"
