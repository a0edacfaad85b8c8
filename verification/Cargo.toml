[package]
name = "hash_ots"
version = "0.1.0"
edition = "2021"
publish = false

[dependencies]
digest = "*"
embedded-io = "*"
embedded-io-async = "*"
serde = { version = "*", features = ["derive"] }
