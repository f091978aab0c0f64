[package]
name = "dispnet-hash"
version = "0.1.0"
edition = "2021"
publish = false

[dependencies]
blake3 = { version = "1", features = ["pure"] }
crc = "3"
rust-argon2 = { version = "1.0", default-features = false }
