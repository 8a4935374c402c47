[package]
name = "multicode"
version = "0.1.0"
edition = "2021"
publish = false

[dependencies]
anyhow = "1"
mdbook = { version = "0.4", default-features = false }
regex = "1"
