[package]
name = "opticaldisc"
version = "0.1.0"
edition = "2021"
publish = false

[dependencies]
btoi = "0.4"
chrono = { version = "0.4", default-features = false, features = ["std"] }
error-chain = { version = "0.12", default-features = false }
memchr = "2"
nom = "4"
