[package]
name = "announcebot"
version = "0.1.0"
edition = "2021"
publish = false

[dependencies]
regex = "1"
irc = "0.13"
notify = "*"
serde = { version = "1", features = ["derive"] }
toml = "*"
