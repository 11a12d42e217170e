[package]
name = "txingest-receiver"
version = "0.1.0"
edition = "2021"
publish = false

[dependencies]
bincode = "=1.3.3"
crossbeam = "=0.8.5"
solana-sdk = "~1.17.31"
