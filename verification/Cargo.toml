[package]
name = "pleiades_explorer"
version = "0.1.0"
edition = "2021"
publish = false

[dependencies]
chrono = "=0.4.45"
directories = "=6.0.0"
eframe = { version = "=0.33.3", default-features = false, features = ["default_fonts", "glow", "x11"] }
egui_extras = { version = "=0.33.3", default-features = false }
image = { version = "=0.25.10", default-features = false, features = ["png"] }
opener = "=0.9.0"
serde = { version = "=1.0.229", features = ["derive"] }
serde_json = "=1.0.154"
trash = "=5.2.9"
