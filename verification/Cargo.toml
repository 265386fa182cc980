[package]
name = "tenebrous_dicebot"
version = "0.1.0"
edition = "2021"
publish = false

[dependencies]
rand = "=0.8.8"
combine = "=4.6.9"
itertools = "=0.10.5"
serde = { version = "=1.0.229", features = ["derive"] }
toml = "=0.5.11"
html2text = "0.2"
