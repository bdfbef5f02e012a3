[package]
name = "szaklon"
version = "0.1.0"
edition = "2021"
publish = false

[dependencies]
rust-argon2 = "*"
base64 = "*"
rand = "*"
unicode-normalization = "*"
chrono = "*"
parking_lot = "*"
serde = { version = "*", features = ["derive"] }
toml = "*"
