[package]
name = "redactor"
version = "0.1.0"
edition = "2021"
publish = false

[dependencies]
getrandom = "0.2"
hex = "0.4"
hmac = "0.12"
regex = "1"
serde = { version = "1", features = ["derive"] }
serde_json = "1"
sha2 = "0.10"
