[package]
name = "json_array"
version = "0.1.0"
edition = "2021"
publish = false

[dependencies]
arrow-array = "*"
arrow-data = "*"
arrow-schema = "*"
