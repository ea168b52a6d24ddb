[package]
name = "bitcoin_broker"
version = "0.1.0"
edition = "2021"
publish = false

[dependencies]
rust_decimal = { version = "1", default-features = false, features = ["std"] }
uuid = { version = "1", features = ["v4"] }
crossbeam-channel = "0.5"
log = "0.4"
env_logger = "*"
dotenv = "0.15"
