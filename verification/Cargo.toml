[package]
name = "indexer_for_wallet"
version = "0.1.0"
edition = "2021"
publish = false

[dependencies]
hex = "=0.4.3"
near-crypto = "=0.37.4"

[dev-dependencies]
bs58 = "=0.4.0"
