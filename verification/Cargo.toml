[package]
name = "bson"
version = "0.1.0"
edition = "2021"
publish = false

[dependencies]
base64 = "0.13"
hex = "0.4"
serde = "1"
serde_bytes = "0.11"
