[package]
name = "shion_watcher"
version = "0.1.0"
edition = "2021"
publish = false

[dependencies]
anyhow = "=1.0.104"
chrono = "=0.4.45"
crossbeam-channel = "=0.5.17"
lazy_static = "=1.5.1"
log = "=0.4.34"
parking_lot = "=0.12.5"
rdev = "0.5"
serde = { version = "=1.0.229", features = ["derive"] }
serde_json = "=1.0.154"
tauri = { version = "2", default-features = false }
