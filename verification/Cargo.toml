[package]
name = "token_scout"
version = "0.1.0"
edition = "2021"
publish = false

[dependencies]
hex-literal = "*"
substreams = "*"
substreams-ethereum = "*"
