[package]
name = "transaction_status"
version = "0.1.0"
edition = "2021"
publish = false

[dependencies]
solana-sdk = "~1.16"
bincode = "1"
serde = "1"
serde_derive = "1"
serde_json = "1"
log = "0.4"
crossbeam-channel = "0.5"
