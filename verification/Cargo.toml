[package]
name = "clockode"
version = "0.1.0"
edition = "2021"
publish = false

[dependencies]
aes-gcm = "=0.10.3"
dirs = "=6.0.0"
fast32 = "=1.0.3"
image = "=0.25.10"
keepass = { version = "=0.8.21", features = ["save_kdbx4"] }
ron = "=0.12.2"
rqrr = "=0.11.0"
scrypt = "=0.11.0"
secrecy = "=0.10.3"
serde = { version = "=1.0.229", features = ["derive"] }
smol = "=2.0.2"
tokio = { version = "=1.54.1", features = ["fs", "rt"] }
totp-lite = "=2.0.1"
totp-rs = { version = "=5.7.2", features = ["otpauth"] }
url = "=2.5.8"
urlencoding = "=2.1.3"
uuid = { version = "=1.29.0", features = ["v4", "serde"] }
