[package]
name = "account_traits"
version = "0.1.0"
edition = "2021"
publish = false

[dependencies]
pinocchio = "=0.11.2"
solana-address = { version = "=2.9.0", features = ["curve25519"] }
borsh = { version = "=1.8.1", features = ["derive"] }
bytemuck = { version = "=1.25.2", features = ["derive"] }
