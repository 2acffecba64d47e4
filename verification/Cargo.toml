[package]
name = "betswap"
version = "0.1.0"
edition = "2021"
publish = false

[dependencies]
base64 = "=0.21.7"
hex = "=0.4.3"
near-sdk = { version = "=5.29.1", features = ["legacy", "unit-testing"] }
schemars = "=0.8.22"
serde_json = "=1.0.154"
sha2 = "=0.10.9"
