[package]
name = "aegnt_27"
version = "0.1.0"
edition = "2021"
publish = false

[dependencies]
chrono = { version = "0.4", features = ["serde"] }
rand = "0.8"
uuid = { version = "1", features = ["v4", "serde"] }
dirs = "5"
serde = { version = "1", features = ["derive"] }
serde_json = "1"
tokio = { version = "1", features = ["fs", "io-util", "rt-multi-thread", "macros"] }
log = "0.4"
env_logger = "0.11"
clap = { version = "4", features = ["derive"] }
