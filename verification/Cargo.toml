[package]
name = "sodium"
version = "0.1.0"
edition = "2021"
publish = false

[dependencies]
dashmap = "6"
num_cpus = "1"
rand = "0.8"
serde = { version = "1", features = ["derive"] }
serde_json = "1"
thiserror = "1"
tokio = { version = "1", features = ["full"] }
toml = "0.8"
tracing = "0.1"
tracing-subscriber = "0.3"
