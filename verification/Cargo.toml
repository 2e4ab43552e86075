[package]
name = "ledger_engine"
version = "0.1.0"
edition = "2021"
publish = false

[dependencies]
base58 = "0.2"
ed25519-dalek = "1"
rand = "0.7"
sha2 = "0.10"
uuid = { version = "1", features = ["v4"] }
