[package]
name = "aggsig"
version = "0.1.0"
edition = "2021"
publish = false

[dependencies]
bs58 = "*"
rand = "*"
clap = { version = "*", features = ["derive"] }
solana-sdk = "*"
