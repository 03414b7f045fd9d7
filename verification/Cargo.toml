[package]
name = "chloria"
version = "0.1.0"
edition = "2021"
publish = false

[dependencies]
anyhow = "1"
argon2 = "0.5"
async-trait = "*"
axum = "*"
axum-extra = { version = "*", features = ["typed-header"] }
chrono = "0.4"
chrono-tz = "*"
csv = "1"
diesel = { version = "*", features = ["postgres", "r2d2", "chrono"] }
env_logger = "*"
futures = "0.3"
jsonwebtoken = "*"
log = "0.4"
rand = "0.9"
reqwest = { version = "*", default-features = false, features = ["rustls-tls"] }
serde = { version = "1", features = ["derive"] }
serde_json = "1"
serde-xml-rs = "*"
serde_with = "*"
strum = { version = "*", features = ["derive"] }
tokio = { version = "1", features = ["full"] }
tokio-util = { version = "*", features = ["io"] }
tower = "*"
