[package]
name = "swaptrade"
version = "0.1.0"
edition = "2021"
publish = false

[dependencies]
crc = "=1.8.1"
lz4 = "=1.28.1"
zstd = "=0.13.4"
soroban-sdk = "=29.0.1"
governor = "=0.6.3"
moka = { version = "0.12", features = ["future"] }
