[package]
name = "spamton_rs"
version = "0.1.0"
edition = "2021"
publish = false

[dependencies]
rand = "*"
statrs = "*"
nalgebra = "*"
csv = "*"
serde = "*"
