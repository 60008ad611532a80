[package]
name = "settings"
version = "0.1.0"
edition = "2021"
publish = false

[dependencies]
cel = { version = "*", default-features = false }
serde = { version = "1", features = ["derive"] }
toml = "0.8"
eframe = { version = "0.31", default-features = false, features = ["default_fonts", "x11"] }
egui = { version = "0.31", default-features = false, features = ["default_fonts"] }
notify = "*"
rfd = { version = "0.15", default-features = false, features = ["xdg-portal", "tokio"] }
