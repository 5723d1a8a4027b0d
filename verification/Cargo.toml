[package]
name = "near_groth16_verifier"
version = "0.1.0"
edition = "2021"
publish = false

[dependencies]
near-sdk = { version = "=5.29.1", features = ["non-contract-usage"] }
serde = { version = "=1.0.229", features = ["derive"] }
serde_json = "=1.0.154"
clap = { version = "=4.6.7", features = ["derive"] }
colored = "=2.2.0"
anyhow = "=1.0.104"

[dev-dependencies]
near-sdk = { version = "=5.29.1", features = ["unit-testing"] }
