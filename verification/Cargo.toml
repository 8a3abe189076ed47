[package]
name = "staking"
version = "0.1.0"
edition = "2021"
publish = false

[dependencies]
parity-codec = { version = "3.5", features = ["derive"] }
sp-arithmetic = "2.0"
