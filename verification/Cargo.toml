[package]
name = "bruh"
version = "0.1.0"
edition = "2021"
publish = false

[dependencies]
clap = "=4.6.7"
eframe = { version = "0.21", default-features = false, features = ["glow"] }
egui_extras = "0.21"
image = "=0.24.9"
