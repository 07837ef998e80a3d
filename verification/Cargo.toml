[package]
name = "closure_transform"
version = "0.1.0"
edition = "2021"
publish = false

[dependencies]
indexmap = "1.9.1"
