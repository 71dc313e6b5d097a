[package]
name = "chanki"
version = "0.1.0"
edition = "2021"
publish = false

[dependencies]
chrono = { version = "0.4", features = ["serde"] }
clap = { version = "4", features = ["derive"] }
eframe = { version = "0.22", default-features = false, features = ["default_fonts", "glow"] }
egui = { version = "0.22", default-features = false }
image = { version = "0.24", default-features = false, features = ["png"] }
rand = "0.8"
serde = { version = "1", features = ["derive"] }
serde_json = "1"
