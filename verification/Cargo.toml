[package]
name = "pumpfun_launches"
version = "0.1.0"
edition = "2021"
publish = false

[dependencies]
anyhow = "1"
base64 = "0.22"
borsh = { version = "1", features = ["derive"] }
bs58 = "0.5"
chrono = "0.4"
clap = { version = "4", features = ["derive"] }
futures-util = "0.3"
log = "0.4"
serde = { version = "1", features = ["derive"] }
serde_json = "1"
serde_with = "3"
solana-sdk = "*"
tokio = { version = "1", features = ["full"] }
