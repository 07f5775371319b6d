[package]
name = "signing_core"
version = "0.1.0"
edition = "2021"
publish = false

[dependencies]
serde = { version = "1", features = ["derive"] }
serde_json = "1"
solana-account-decoder = "~1.6"
solana-sdk = "~1.6"
solana-transaction-status = "~1.6"
