[package]
name = "auth_rocket"
version = "0.1.0"
edition = "2021"
publish = false

[dependencies]
chrono = "0.4"
log = "0.4"
r2d2 = "0.8"
r2d2_redis = "*"
rand = "0.3"
redis = "0.20"
rocket = { version = "0.5", features = ["json"] }
rust-crypto = "0.2"
serde = { version = "1", features = ["derive"] }
serde_json = "1"
