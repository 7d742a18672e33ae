[package]
name = "mor-steg"
version = "0.2.0"
edition = "2021"
publish = false

[dependencies]
tempfile = "3"
