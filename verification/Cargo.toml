[package]
name = "ef_testing"
version = "0.1.0"
edition = "2021"
publish = false

[dependencies]
regex = "=1.13.1"
ethers-core = "=2.0.14"
ethers-signers = "=2.0.14"
serde = { version = "=1.0.229", features = ["derive"] }
serde_json = "1"
serde_yaml = "0.9"
