[package]
name = "p_mo"
version = "0.1.0"
edition = "2021"
publish = false

[dependencies]
uuid = { version = "1", features = ["v4"] }
regex = "1"
serde = { version = "1", features = ["derive"] }
serde_json = "1"
toml = "0.8"
dirs = "5"
clap = { version = "4", features = ["derive"] }
thiserror = "1"
tokio = { version = "1", features = ["full"] }
async-trait = "0.1"
backoff = "0.4"
deadpool = "0.10"
qdrant-client = "1"
tracing = "0.1"
tracing-subscriber = "0.3"
axum = "0.6"
