[package]
name = "mango"
version = "0.1.0"
edition = "2021"
publish = false

[dependencies]
fixed = "=1.31.0"
serum_dex = { version = "=0.3.1", default-features = false, features = ["no-entrypoint"] }
solana-program = "=1.18.26"
spl-token = { version = "=3.5.0", features = ["no-entrypoint"] }
