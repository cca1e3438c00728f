[package]
name = "web3dater"
version = "0.1.0"
edition = "2021"
publish = false

[dependencies]
chrono = "0.4"
web3 = { version = "0.19", default-features = false, features = ["http"] }
