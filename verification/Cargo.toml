[package]
name = "open_jtalk"
version = "0.1.0"
edition = "2021"
publish = false

[dependencies]
camino = "1"
