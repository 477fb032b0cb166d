[package]
name = "payment_relay"
version = "0.1.0"
edition = "2021"
publish = false

[dependencies]
chrono = "*"
serde = { version = "*", features = ["derive"] }
serde_json = "*"
tokio = { version = "*", features = ["full"] }
redis = { version = "*", features = ["tokio-comp"] }
reqwest = { version = "*", default-features = false, features = ["json"] }
hyper = { version = "*", features = ["server", "http1"] }
hyperlocal = "*"
http-body-util = "*"
log = "*"
env_logger = "*"
