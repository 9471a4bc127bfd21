[package]
name = "smart_locker"
version = "0.1.0"
edition = "2021"
publish = false

[dependencies]
aes-gcm = "*"
flate2 = "*"
rand = "*"
ring = "*"
chrono = "*"
serde = { version = "*", features = ["derive"] }
serde_json = "*"
clap = "*"
directories = "*"
