[package]
name = "paper_library"
version = "0.1.0"
edition = "2021"
publish = false

[dependencies]
brotli = "=3.5.0"
serde_json = "=1.0.154"
