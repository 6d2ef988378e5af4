[package]
name = "epicycles"
version = "0.1.0"
edition = "2021"
publish = false

[dependencies]
num-complex = "*"
eframe = { version = "*", default-features = false, features = ["glow", "x11"] }
egui_plot = "*"
