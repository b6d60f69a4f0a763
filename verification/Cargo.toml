[package]
name = "dynamo_llm"
version = "0.1.0"
edition = "2021"
publish = false

[dependencies]
anyhow = "1"
async-trait = "0.1"
axum = "0.8"
dashmap = "6"
deadpool-redis = "*"
once_cell = "1"
prometheus = "0.14"
redis = { version = "*", features = ["tokio-comp", "script"] }
serde = { version = "1", features = ["derive"] }
serde_json = "1"
thiserror = "2"
tokio = { version = "1", features = ["macros", "rt-multi-thread", "sync", "time"] }
tracing = "0.1"
uuid = { version = "1", features = ["v4"] }
