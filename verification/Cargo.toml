[package]
name = "credvault"
version = "0.1.0"
edition = "2021"
publish = false

[dependencies]
aes-gcm = "0.10"
rand = "0.8"
rusqlite = { version = "*", features = ["bundled"] }
