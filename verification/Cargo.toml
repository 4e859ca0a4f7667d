[package]
name = "router-quote"
version = "0.1.0"
edition = "2021"
publish = false

[dependencies]
axum = "=0.7.9"
dashmap = "=6.2.1"
soroban-sdk = "=29.0.1"
tokio = { version = "=1.54.1", features = ["macros", "net", "rt-multi-thread", "sync"] }
tracing = "=0.1.44"
tracing-subscriber = { version = "=0.3.23", features = ["env-filter"] }

[dev-dependencies]
soroban-sdk = { version = "=29.0.1", features = ["testutils"] }
