[package]
name = "quizzler"
version = "0.1.0"
edition = "2021"
publish = false

[dependencies]
bech32 = "0.9"
cosmwasm-std = "2"
cosmwasm-schema = "2"
cw-storage-plus = "2"
cw-utils = "2"
neutron-sdk = "*"
neutron-std = "*"
schemars = "0.8"
serde = { version = "1", features = ["derive"] }
thiserror = "1"
