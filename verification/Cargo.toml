[package]
name = "tile_platformer"
version = "0.1.0"
edition = "2021"
publish = false

[dependencies]
ron = "=0.6.6"
raylib = "=3.5.0"
serde = { version = "=1.0.229", features = ["derive"] }
specs = { version = "=0.16.1", default-features = false, features = ["serde"] }
