[package]
name = "oraiswap-v3"
version = "0.1.0"
edition = "2021"
publish = false

[dependencies]
alloy-primitives = "0.8"
num-bigint = "0.4"
num-integer = "0.1"
uniswap-sdk-core = "*"
cosmwasm-std = "1.5"
cosmwasm-storage = "1.5"
cosmwasm-schema = "1.5"
cw-storage-plus = "1.2"
cw2 = "1.1"
cw20 = "1.1"
cw721 = "0.18"
thiserror = "1"
serde = { version = "1", features = ["derive"] }
schemars = "0.8"
anyhow = "1"
