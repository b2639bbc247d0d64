[package]
name = "tile_rules"
version = "0.1.0"
edition = "2021"
publish = false

[dependencies]
bevy = { version = "0.16", default-features = false, features = ["std", "bevy_state", "bevy_asset", "bevy_log"] }
bevy_common_assets = { version = "0.13", features = ["ron"] }
serde = { version = "1", features = ["derive"] }
