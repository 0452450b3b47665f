[package]
name = "built_with_bevy"
version = "0.1.0"
edition = "2021"
publish = false

[dependencies]
bevy = { version = "=0.18.1", default-features = false, features = ["bevy_render", "bevy_core_pipeline", "bevy_asset", "bevy_window", "bevy_log", "bevy_color", "std"] }
