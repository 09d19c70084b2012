[package]
name = "bevy_cards"
version = "0.1.0"
edition = "2021"
publish = false

[dependencies]
bevy = { version = "=0.17.3", default-features = false, features = ["bevy_window", "bevy_log", "bevy_camera", "std"] }
