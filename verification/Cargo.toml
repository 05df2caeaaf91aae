[package]
name = "trilogy_save"
version = "0.1.0"
edition = "2021"
publish = false

[dependencies]
anyhow = "1"
encoding_rs = "0.8"
indexmap = "*"
unicase = "2"
