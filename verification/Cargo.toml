[package]
name = "tyler"
version = "0.1.0"
edition = "2021"
publish = false

[dependencies]
image = "=0.25.10"
zip = { version = "=8.6.0", default-features = false }
rouille = "=3.6.2"
