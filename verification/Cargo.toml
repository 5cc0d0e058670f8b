[package]
name = "viewer"
version = "0.1.0"
edition = "2021"
publish = false

[dependencies]
anyhow = "1"
eframe = { version = "=0.31.1", default-features = false, features = ["default_fonts", "glow", "persistence", "x11"] }
egui = { version = "=0.31.1", default-features = false }
egui_tiles = "=0.12.0"
polars-core = { version = "=0.46.0", default-features = false, features = ["dtype-datetime", "serde"] }
ron = "=0.8.1"
serde = { version = "1", features = ["derive"] }
tracing = { version = "=0.1.44", default-features = false, features = ["std"] }
tracing-subscriber = "0.3"
