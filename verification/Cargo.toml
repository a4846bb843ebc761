[package]
name = "html8"
version = "0.1.0"
edition = "2021"
publish = false

[dependencies]
regex = "1"
rand = "0.9"
colored = "2"
anyhow = "1"
libloading = "0.8"
