[package]
name = "newsletter"
version = "0.1.0"
edition = "2021"
publish = false

[dependencies]
argon2 = "*"
base64 = "*"
chrono = "*"
hex = "*"
hmac = "*"
rand = "*"
sha2 = "*"
unicode-segmentation = "*"
urlencoding = "*"
uuid = { version = "*", features = ["v4"] }
