[package]
name = "gba_rom"
version = "0.1.0"
edition = "2021"
publish = false

[dependencies]
anyhow = "1"
flutter_rust_bridge = "2"
image = { version = "0.25", default-features = false }
once_cell = "1"
serde = { version = "1", features = ["derive"] }
