[package]
name = "foxy-lend"
version = "0.1.0"
edition = "2021"
publish = false

[dependencies]
cosmwasm-std = "1"
cw-storage-plus = "1"
cw-utils = "1"
cw721 = "0.18"
serde = { version = "1", default-features = false, features = ["derive"] }
thiserror = "1"
