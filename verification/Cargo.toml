[package]
name = "cw_vault_standard"
version = "0.1.0"
edition = "2021"
publish = false

[dependencies]
cosmwasm-std = "1"
cosmwasm-schema = "1"
schemars = "0.8"
serde = "1"
cw-it = { version = "0.4", features = ["multi-test"] }
