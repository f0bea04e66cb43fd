[package]
name = "tile_viewport"
version = "0.1.0"
edition = "2021"
publish = false

[dependencies]
bevy = { version = "=0.5.0", default-features = false, features = ["render"] }
pin-project = "=1.0.12"
rs-tiled_json = "=0.1.0"
serde = "=1.0.118"
