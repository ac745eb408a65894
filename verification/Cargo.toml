[package]
name = "oracular"
version = "0.1.0"
edition = "2021"
publish = false

[dependencies]
serde_json = "1"
hex = "0.4"
url = "2"
ethers-core = "2"
