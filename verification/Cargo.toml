[package]
name = "snake_client"
version = "0.1.0"
edition = "2021"
publish = false

[dependencies]
bevy = { version = "0.9", default-features = false, features = ["bevy_render"] }
iyes_loopless = "0.9"
