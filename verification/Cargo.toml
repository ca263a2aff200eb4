[package]
name = "polymix"
version = "0.1.0"
edition = "2021"
publish = false

[dependencies]
validator = "=0.21.0"
ulid = "=3.0.0"
chrono = "=0.4.45"
serde = { version = "=1.0.229", features = ["derive"] }
serde_json = "=1.0.154"
axum = { version = "=0.8.9", features = ["ws"] }
tokio = { version = "=1.54.1", features = ["full"] }
tower-http = { version = "=0.7.1", features = ["cors"] }
tracing = "=0.1.44"
tracing-subscriber = "=0.3.23"
anyhow = "=1.0.104"
jsonwebtoken = "9"
reqwest = { version = "0.12", default-features = false, features = ["json"] }
