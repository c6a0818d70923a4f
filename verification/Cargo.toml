[package]
name = "sc_pow"
version = "0.8.0"
edition = "2021"
publish = false

[dependencies]
parity-scale-codec = { version = "1.3.4", features = ["derive"] }
derive_more = "0.99.2"
futures = "0.3.1"
log = "0.4.8"
sp-api = "2.0.0"
sp-block-builder = "2.0.0"
sp-blockchain = "2.0.0"
sp-consensus = "0.8.0"
sp-consensus-pow = "0.8.0"
sp-core = "2.0.0"
sp-inherents = "2.0.0"
sp-runtime = "2.0.0"
sp-std = "2.0.0"
sp-timestamp = "2.0.0"
substrate-bip39 = "=0.4.2"
