[package]
name = "am03127"
version = "0.1.0"
edition = "2021"
publish = false

[dependencies]
time = "*"
