[package]
name = "sectorcast"
version = "0.1.0"
edition = "2021"
publish = false

[dependencies]
bresenham = "*"
glam = "*"
serde = { version = "*", features = ["derive"] }
serde_json = "*"
