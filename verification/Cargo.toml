[package]
name = "rpm"
version = "0.1.0"
edition = "2021"
publish = false

[dependencies]
aes-gcm = "=0.10.3"
argon2 = "=0.5.3"
base64 = "=0.22.1"
rand = "=0.8.8"
uuid = { version = "=1.27.0", features = ["v4"] }
zeroize = "=1.9.1"
dirs = "*"
serde = { version = "1", features = ["derive"] }
toml = "*"

[dev-dependencies]
hex = "0.4"
serde_json = "1"
