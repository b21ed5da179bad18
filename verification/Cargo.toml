[package]
name = "iced_blur"
version = "0.1.0"
edition = "2021"
publish = false

[dependencies]
bytemuck = "1"
iced_core = "*"
iced_widget = { version = "*", features = ["wgpu"] }
