[package]
name = "patcher"
version = "0.1.0"
edition = "2021"
publish = false

[dependencies]
json = "*"
sha2 = "*"
hex = "*"
reqwest = { version = "=0.12.28", features = ["blocking"] }
rust-ini = "*"
url = "*"
rayon = "*"
