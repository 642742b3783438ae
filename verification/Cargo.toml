[package]
name = "cabal_backend"
version = "0.1.0"
edition = "2021"
publish = false

[dependencies]
versions = "*"
serde_json = "*"
eyre = "*"
reqwest = { version = "*", default-features = false, features = ["blocking"] }
