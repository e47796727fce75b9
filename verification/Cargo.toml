[package]
name = "latest"
version = "0.1.0"
edition = "2021"
publish = false

[dependencies]
crossbeam = "0.6"
bus = "2"
