[package]
name = "gamekit"
version = "0.1.0"
edition = "2021"
publish = false

[dependencies]
bevy = { version = "0.11", default-features = false }
nom = "5"
rand = "0.8"
