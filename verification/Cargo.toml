[package]
name = "gmpass"
version = "0.1.0"
edition = "2021"
publish = false

[dependencies]
aes-gcm = "0.10"
argon2 = "0.5"
hmac = "0.12"
sha1 = "0.10"
rand = "0.8"
uuid = { version = "1", features = ["v4", "serde"] }
chrono = "0.4"
dirs = "5"
serde = { version = "1", features = ["derive"] }
serde_json = "1"
toml = "0.8"
crossterm = "0.28"
ratatui = "0.29"
arboard = { version = "3", default-features = false }
rpassword = "7"
zeroize = "1"
