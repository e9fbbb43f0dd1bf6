[package]
name = "deadlocked"
version = "0.1.0"
edition = "2021"
publish = false

[dependencies]
bytemuck = "1"
glam = { version = "*", features = ["serde"] }
serde = { version = "1", features = ["derive"] }
serde_json = "1"
toml = "*"
uuid = { version = "1", features = ["v4", "serde"] }
crossbeam = "*"
parking_lot = "*"
strum = { version = "*", features = ["derive"] }
egui = "*"
winit = "*"
