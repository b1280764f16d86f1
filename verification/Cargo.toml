[package]
name = "tsm_client"
version = "0.1.0"
edition = "2021"
publish = false

[dependencies]
sha2 = "*"
tempfile = "*"
hex = "*"
