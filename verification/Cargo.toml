[package]
name = "ntsc"
version = "0.1.0"
edition = "2021"
publish = false

[dependencies]
image = "0.24"
rand = "0.8"
winit = "0.27"
pixels = "0.11"
env_logger = "0.10"
