[package]
name = "realisation_manager"
version = "0.1.0"
edition = "2021"
publish = false

[dependencies]
anyhow = "1"
blake3 = "1"
chrono = "0.4"
crossbeam-channel = "0.5"
env_logger = "*"
image = { version = "0.25", default-features = false, features = ["jpeg", "png"] }
infer = "*"
kamadak-exif = "*"
log = "0.4"
parking_lot = "0.12"
r2d2 = "0.8"
r2d2_sqlite = "*"
rayon = "1"
rusqlite = { version = "*", features = ["bundled"] }
serde = { version = "1", features = ["derive"] }
serde_json = "1"
slug = "0.1"
uuid = { version = "1", features = ["v4"] }
walkdir = "2"
