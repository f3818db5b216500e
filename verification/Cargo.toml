[package]
name = "gamecraft"
version = "0.1.0"
edition = "2021"
publish = false

[dependencies]
bevy = { version = "0.16", default-features = false, features = [
    "bevy_asset",
    "bevy_color",
    "bevy_core_pipeline",
    "bevy_pbr",
    "bevy_render",
    "bevy_window",
    "bevy_winit",
    "x11",
] }
image = { version = "0.25", default-features = false }
winit = { version = "0.30", default-features = false, features = ["x11"] }
