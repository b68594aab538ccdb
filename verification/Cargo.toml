[package]
name = "uptimebar"
version = "0.4.0"
edition = "2021"
publish = false

[dependencies]
reqwest = { version = "0.12", default-features = false, features = ["json", "rustls-tls"] }
serde = { version = "1", features = ["derive"] }
serde_json = "1"
tokio = { version = "1", features = ["sync", "time", "macros", "rt-multi-thread"] }
futures = "0.3"
async-trait = "0.1"
log = "0.4"
env_logger = "0.11"
uuid = { version = "1", features = ["v4"] }
keyring = "3"
