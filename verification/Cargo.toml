[package]
name = "job_orchestrator"
version = "0.1.0"
edition = "2021"
publish = false

[dependencies]
sha2 = "=0.10.9"
ed25519-dalek = "=2.2.0"
base64 = "=0.22.1"
hex = "=0.4.3"
serde = { version = "=1.0.229", features = ["derive"] }
serde_json = "=1.0.154"
uuid = { version = "=1.29.0", features = ["v4", "serde"] }
chrono = "=0.4.45"
tokio = { version = "=1.54.1", features = ["full"] }
axum = "=0.7.9"
reqwest = { version = "=0.12.28", default-features = false, features = ["json"] }
dotenvy = "=0.15.7"
thiserror = "=1.0.69"
tower-http = { version = "0.5", features = ["cors"] }
tonic = "=0.12.3"
