[package]
name = "hammer"
version = "0.1.0"
edition = "2021"
publish = false

[dependencies]
solana-sdk = "1.10"
rand = "0.7"
bs58 = "0.4"
ed25519-dalek = "1"
base64 = "0.13"
bincode = "1"
