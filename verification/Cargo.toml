[package]
name = "cash_back"
version = "0.1.0"
edition = "2021"
publish = false

[dependencies]
cosmwasm-schema = "=1.5.11"
cosmwasm-std = "=1.5.11"
cw-storage-plus = "=1.2.0"
cw20 = "=1.1.2"
oraiswap = "=1.0.1"
protobuf = "=3.2.0"
thiserror = "1"
