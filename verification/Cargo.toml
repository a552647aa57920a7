[package]
name = "backstop"
version = "3.0.0"
edition = "2021"
publish = false

[dependencies]
sep-41-token = "=1.4.0"
soroban-fixed-point-math = "=1.5.0"
soroban-sdk = { version = "=25.3.2", features = ["testutils"] }
