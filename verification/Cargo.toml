[package]
name = "arena"
version = "0.1.0"
edition = "2021"
publish = false

[dependencies]
fxhash = "*"
serde = { version = "=1.0.229", features = ["derive"] }
spirv_headers = "=1.5.0"
