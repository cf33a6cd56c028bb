[package]
name = "rusty_life"
version = "0.1.0"
edition = "2021"
publish = false

[dependencies]
ndarray = "0.15"
ggez = { version = "0.9", default-features = false }
