[package]
name = "game_state"
version = "0.1.0"
edition = "2021"
publish = false

[dependencies]
cgmath = "=0.18.0"
image = { version = "=0.25.10", default-features = false }
time = "=0.1.45"
vulkano = "=0.35.2"
winit = "=0.30.13"
