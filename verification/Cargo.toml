[package]
name = "float_bits"
version = "0.1.0"
edition = "2021"
publish = false

[dependencies]
seed = "*"
