[package]
name = "digital_rain"
version = "0.1.0"
edition = "2021"
publish = false

[dependencies]
rand = "0.8"
image = { version = "0.24", default-features = false, features = ["png"] }
pollster = "0.3"
bytemuck = { version = "1", features = ["derive"] }
