[package]
name = "venus_compiler"
version = "0.2.0"
edition = "2021"
publish = false

[dependencies]
rustc-hash = "2"
