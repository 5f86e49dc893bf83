[package]
name = "fst_reader"
version = "0.1.0"
edition = "2021"
publish = false

[dependencies]
fstapi = "*"
