[package]
name = "coin_arcade"
version = "0.1.0"
edition = "2021"
publish = false

[dependencies]
itertools = "=0.12.1"
bevy = { version = "0.12", default-features = false }
