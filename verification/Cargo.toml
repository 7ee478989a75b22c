[package]
name = "bevy_starfighter"
version = "0.1.0"
edition = "2021"
publish = false

[dependencies]
rand = { version = "=0.8.8", features = ["small_rng"] }
clap = { version = "=3.2.25", features = ["derive"] }
entity-gym-rs = "=0.8.0"
bevy = { version = "=0.9.1", default-features = false, features = ["bevy_asset", "bevy_render", "bevy_sprite", "bevy_text", "bevy_core_pipeline", "bevy_pbr", "bevy_winit", "x11"] }
bevy_rapier2d = { version = "=0.19.0", default-features = false, features = ["dim2", "debug-render"] }
winit = { version = "0.27", default-features = false, features = ["x11"] }
image = { version = "0.24", default-features = false, features = ["png"] }
