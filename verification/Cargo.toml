[package]
name = "gossip_node"
version = "0.1.0"
edition = "2021"
publish = false

[dependencies]
log = "0.4"
log4rs = { version = "1", default-features = false, features = ["file_appender", "pattern_encoder"] }
serde = { version = "1", features = ["derive"] }
serde_json = "1"
serde_with = "3"
tokio = { version = "1", features = ["macros", "rt-multi-thread", "time"] }
tokio-stream = "0.1"
uuid = { version = "1", features = ["v4"] }
