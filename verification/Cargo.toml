[package]
name = "scylla_rs"
version = "0.1.0"
edition = "2021"
publish = false

[dependencies]
md5 = "0.7"
hex = "0.4"
rand = "0.8"
