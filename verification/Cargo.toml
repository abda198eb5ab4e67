[package]
name = "crypto_checksum"
version = "0.1.0"
edition = "2021"
publish = false

[dependencies]
pbkdf2 = "*"
sha2 = "*"
reqwest = { version = "*", default-features = false, features = ["blocking"] }
