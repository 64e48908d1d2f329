[package]
name = "pubsub_relay"
version = "0.1.0"
edition = "2021"
publish = false

[dependencies]
tokio = { version = "1", features = ["sync", "rt", "rt-multi-thread"] }
warp = "0.3"
env_logger = "0.11"
serde = { version = "1", features = ["derive"] }
futures-util = "0.3"
