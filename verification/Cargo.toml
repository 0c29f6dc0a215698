[package]
name = "codetrial"
version = "0.1.0"
edition = "2021"
publish = false

[dependencies]
axum = "0.8"
serde_json = "1"
sha2 = "0.10"
