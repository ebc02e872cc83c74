[package]
name = "diversified_pool"
version = "0.1.0"
edition = "2021"
publish = false

[dependencies]
near-sdk = "2"
