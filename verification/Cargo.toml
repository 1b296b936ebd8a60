[package]
name = "saddle-procgen-noise"
version = "0.1.0"
edition = "2021"
publish = false

[dependencies]
bevy = { version = "0.17", default-features = false, features = ["std", "bevy_asset", "bevy_image", "bevy_color", "multi_threaded", "serialize"] }
serde = { version = "1", features = ["derive"] }
serde_json = "1"
ron = "0.10"
