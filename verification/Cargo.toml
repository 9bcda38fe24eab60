[package]
name = "config_builder"
version = "0.1.0"
edition = "2021"
publish = false

[dependencies]
ed25519-dalek = "2"
rand = "0.8"
sha3 = "0.10"
