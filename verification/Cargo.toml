[package]
name = "steam_totp"
version = "0.1.0"
edition = "2021"
publish = false

[dependencies]
hmac = "*"
sha1 = "*"
clap = { version = "*", features = ["derive"] }

[dev-dependencies]
simple-steam-totp = "*"
