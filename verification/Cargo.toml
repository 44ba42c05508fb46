[package]
name = "sandwich_core"
version = "0.1.0"
edition = "2021"
publish = false

[dependencies]
anyhow = "1"
async-trait = "0.1"
aws-config = "1"
aws-sdk-s3 = "1"
axum = "0.7"
bytes = "1"
chrono = "0.4"
clap = { version = "4", features = ["derive"] }
futures = "0.3"
image = "=0.25.10"
lru = { version = "=0.18.5", default-features = false }
serde = { version = "1", features = ["derive"] }
tokio = { version = "1", features = ["full"] }
tower-http = { version = "*", features = ["cors", "trace"] }
tracing = "0.1"
tracing-subscriber = "0.3"
xxhash-rust = { version = "=0.8.19", features = ["xxh64"] }
