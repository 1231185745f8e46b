[package]
name = "tile_battle"
version = "0.1.0"
edition = "2021"
publish = false

[dependencies]
anyhow = "1"
bincode = "1"
crossbeam = "0.8"
log = "0.4"
serde = { version = "1", features = ["derive"] }
serde_json = "1"
threadpool = "1"
