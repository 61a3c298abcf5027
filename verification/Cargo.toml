[package]
name = "my_transaction_engine"
version = "0.1.0"
edition = "2021"
publish = false

[dependencies]
csv = "*"
rust_decimal = "*"
clap = { version = "*", features = ["derive"] }
env_logger = "*"
log = "*"
anyhow = "*"
