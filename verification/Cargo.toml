[package]
name = "sierra"
version = "0.1.0"
edition = "2021"
publish = false

[dependencies]
bimap = "*"
num-bigint = "*"
smol_str = "*"
