[package]
name = "identity_engine"
version = "0.1.0"
edition = "2021"
publish = false

[dependencies]
aes-gcm = "*"
base64 = "*"
ring = "*"
uuid = { version = "*", features = ["v4"] }
dirs = "*"
dotenvy = "*"
