[package]
name = "drip"
version = "0.1.0"
edition = "2021"
publish = false

[dependencies]
cosmwasm-std = { version = "=2.3.5", features = ["stargate"] }
cosmwasm-schema = "=2.3.5"
cw-storage-plus = "=2.0.0"
cw-utils = "=2.0.0"
cw2 = "=2.0.0"
serde = { version = "=1.0.229", features = ["derive"] }
schemars = "=0.8.22"
thiserror = "=1.0.69"
sha2 = "=0.10.9"
