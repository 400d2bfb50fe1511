[package]
name = "kod_chain"
version = "0.1.0"
edition = "2021"
publish = false

[dependencies]
sha3 = "*"
hex = "*"
sp-core = "*"
sp-crypto-hashing = "*"
bip39 = "*"
chrono = "*"
dirs = "*"
serde = { version = "*", features = ["derive"] }
serde_json = "*"
getrandom = "*"
rand = "*"

[dev-dependencies]
parity-scale-codec = "*"
