[package]
name = "procss"
version = "0.1.0"
edition = "2021"
publish = false

[dependencies]
anyhow = "1"
base64 = "0.21"
once_cell = "1"
regex = "1"
