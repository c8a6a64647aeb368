[package]
name = "titanirc"
version = "0.1.0"
edition = "2021"
publish = false

[dependencies]
humantime = "2"
base64 = "0.21"
irc-proto = "1"
serde = { version = "1", features = ["derive"] }
toml = "0.5"
clap = { version = "4", features = ["derive", "cargo"] }
chrono = "0.4"
argon2 = "0.5"
rand = "0.8"
