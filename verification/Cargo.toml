[package]
name = "cp16"
version = "0.1.0"
edition = "2021"
publish = false

[dependencies]
unifont = "*"
hound = "*"
clap = { version = "*", features = ["derive"] }
cpal = "*"
eframe = { version = "*", default-features = false }
egui = "*"
