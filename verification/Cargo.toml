[package]
name = "game_plugin"
version = "0.1.0"
edition = "2021"
publish = false

[dependencies]
anyhow = "1"
bevy = { version = "0.5", default-features = false, features = ["render"] }
bevy_asset_loader = "0.6"
bevy_ecs_tilemap = "0.4"
bevy_kira_audio = "0.5"
csv = "1"
heron = "0.12"
serde = { version = "1", features = ["derive"] }
