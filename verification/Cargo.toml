[package]
name = "rotation_tool"
version = "0.1.0"
edition = "2021"
publish = false

[dependencies]
eframe = { version = "0.32", default-features = false, features = ["default_fonts", "glow", "persistence", "x11"] }
egui = "0.32"
egui_extras = "0.32"
nalgebra = "0.33"
serde = { version = "1", features = ["derive"] }
