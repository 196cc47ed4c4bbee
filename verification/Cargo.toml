[package]
name = "rain_editor"
version = "0.1.0"
edition = "2021"
publish = false

[dependencies]
bytemuck = "=1.25.2"
eframe = { version = "=0.23.0", default-features = false, features = ["wgpu", "default_fonts", "x11"] }
egui_logger = "=0.4.0"
log = "=0.4.34"
puffin = "=0.17.0"
puffin_egui = "=0.23.0"
