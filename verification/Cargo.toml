[package]
name = "variant_chess"
version = "0.1.0"
edition = "2021"
publish = false

[dependencies]
ndarray = "*"
