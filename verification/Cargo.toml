[package]
name = "account_contract"
version = "0.1.0"
edition = "2021"
publish = false

[dependencies]
sha2 = "=0.10.9"
cosmwasm-crypto = "=1.5.11"
cosmwasm-std = { version = "=1.5.11", features = ["stargate"] }
cosmwasm-schema = "=1.5.11"
cw2 = "=1.1.2"
cw-storage-plus = "=1.2.0"
schemars = "=0.8.22"
serde = { version = "=1.0.229", features = ["derive"] }
serde_json = "=1.0.154"
cosmrs = { version = "=0.22.0", features = ["cosmwasm"] }
k256 = "=0.13.4"
hex = "=0.4.3"
base64 = "=0.21.7"
