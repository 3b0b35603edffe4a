[package]
name = "libcurt"
version = "0.1.0"
edition = "2021"
publish = false

[dependencies]
argparse = "*"
yaml-rust = "*"
