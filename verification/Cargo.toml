[package]
name = "fish_feeding"
version = "0.1.0"
edition = "2021"
publish = false

[dependencies]
bevy = { version = "0.17", default-features = false, features = ["std", "bevy_asset", "bevy_core_pipeline", "bevy_render", "bevy_sprite", "bevy_sprite_render", "bevy_state", "bevy_window"] }
bevy_ecs_ldtk = "0.13"
bevy_pancam = "0.19"
bevy_seedling = "0.6"
