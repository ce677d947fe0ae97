[package]
name = "clutch"
version = "0.1.0"
edition = "2021"
publish = false

[dependencies]
solana-sdk = "2.2"
sha2 = "0.10"
hex = "0.4"
bincode = "1.3"
chrono = { version = "0.4", features = ["serde"] }
bs58 = "0.5"
serde = { version = "1", features = ["derive"] }
serde_json = "1"
tokio = { version = "1", features = ["full"] }
tracing = "0.1"
tracing-subscriber = { version = "0.3", features = ["env-filter"] }
anyhow = "1"
thiserror = "1"
clap = { version = "4", features = ["derive"] }
jsonrpsee = { version = "0.24", features = ["server", "macros"] }
tower = "0.4"
tower-http = { version = "0.5", features = ["cors"] }
