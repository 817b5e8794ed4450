[package]
name = "bloom_cook"
version = "0.1.0"
edition = "2021"
publish = false

[dependencies]
sha2 = "=0.10.9"
serde_json = "=1.0.154"
image = { version = "0.25", default-features = false, features = ["png"] }
