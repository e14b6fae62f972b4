[package]
name = "p2pchain"
version = "0.1.0"
edition = "2021"
publish = false

[dependencies]
sha2 = "0.10"
uuid = { version = "1", features = ["v4"] }
bincode = { version = "2", features = ["serde", "derive"] }
serde = { version = "1", features = ["derive"] }
serde_json = "1"
anyhow = "1"
tokio = { version = "1", features = ["full"] }
tracing = "0.1"
rustyline = "14"
colored = "2"
env_logger = "0.11"
num_enum = "0.7"
rand = "0.8"
