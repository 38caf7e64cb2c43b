[package]
name = "convay"
version = "0.1.0"
edition = "2021"
publish = false

[dependencies]
eframe = { version = "=0.32.3", default-features = false, features = ["default_fonts", "glow", "wayland", "x11"] }
egui = { version = "=0.32.3", default-features = false }
log = "=0.4.34"
