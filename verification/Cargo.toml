[package]
name = "notepad"
version = "0.1.0"
edition = "2021"
publish = false

[dependencies]
solana-program = "1.18"
thiserror = "1.0"
num-derive = "0.4"
num-traits = "0.2"

[dev-dependencies]
borsh = "0.10"
