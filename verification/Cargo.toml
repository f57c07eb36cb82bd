[package]
name = "sei-cosmwasm"
version = "0.1.0"
edition = "2021"
publish = false

[dependencies]
anyhow = "1.0"
base64 = "0.13"
cosmwasm-std = { version = "1.5", features = ["iterator"] }
cw-multi-test = "0.20"
cw-storage-plus = "1.2"
cw2 = "1.1"
cw20 = "1.1"
protobuf = "3.1"
schemars = "0.8"
serde = { version = "1.0", features = ["derive"] }
serde_json = "1.0"
serde_repr = "0.1"
