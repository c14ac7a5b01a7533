[package]
name = "starknet_crypto_py"
version = "0.1.0"
edition = "2021"
publish = false

[dependencies]
starknet-crypto = "=0.8.1"
starknet-curve = "=0.6.0"
starknet-types-core = "=0.2.4"
num-bigint = "=0.4.8"
pyo3 = { version = "=0.29.3", features = ["num-bigint"] }
