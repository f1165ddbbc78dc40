[package]
name = "multisig"
version = "0.1.0"
edition = "2021"
publish = false

[dependencies]
pinocchio = { version = "=0.12.0", features = ["account-resize"] }
pinocchio-system = "=0.7.0"
pinocchio-pubkey = "=0.3.0"
solana-pubkey = { version = "=4.4.0", features = ["curve25519"] }
solana-instruction = "=4.0.0"
solana-sha256-hasher = { version = "=3.1.0", features = ["sha2"] }
