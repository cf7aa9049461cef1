[package]
name = "mempools_alerts"
version = "0.1.0"
edition = "2021"
publish = false

[dependencies]
cosmrs = { version = "=0.22.0", features = ["cosmwasm"] }
cw20-base = "=2.0.0"
serde_json = "=1.0.151"
base64 = "=0.23.1"
web3 = { version = "=0.19.0", default-features = false }
serde = { version = "=1.0.229", features = ["derive"] }
reqwest = { version = "=0.13.5", default-features = false, features = ["blocking", "json"] }
