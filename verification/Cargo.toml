[package]
name = "prism_engine"
version = "0.1.0"
edition = "2021"
publish = false

[dependencies]
glam = "*"
winit = "*"
egui = "*"
bytemuck = { version = "*", features = ["derive"] }
