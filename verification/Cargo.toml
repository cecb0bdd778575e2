[package]
name = "srlbot"
version = "0.1.0"
edition = "2021"
publish = false

[dependencies]
futures = "0.3"
irc = "0.14"
rand = "0.7"
regex = "1"
serde = { version = "1", features = ["derive"] }
serde_json = "1"
serenity = "0.8"
tokio = { version = "0.2", features = ["full"] }
