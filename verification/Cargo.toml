[package]
name = "v11"
version = "0.1.0"
edition = "2021"
publish = false

[dependencies]
bit-vec = "*"
serde = { version = "1", features = ["derive"] }
lazy_static = "1"
