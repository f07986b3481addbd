[package]
name = "melody"
version = "0.1.0"
edition = "2021"
publish = false

[dependencies]
ahash = "=0.8.12"
md5 = "=0.7.0"
rand = "=0.9.5"
regex = "=1.13.1"
url = "=2.5.8"
