[package]
name = "ping_supervisor"
version = "0.1.0"
edition = "2021"
publish = false

[dependencies]
regex = "1"
parking_lot = "0.12"
serde = { version = "1", features = ["derive"] }
tauri = { version = "2", default-features = false }
