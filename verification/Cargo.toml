[package]
name = "minecraft_alpha_rust"
version = "0.1.0"
edition = "2021"
publish = false

[dependencies]
anyhow = "1"
bytemuck = { version = "1", features = ["derive"] }
env_logger = "0.11"
glam = "0.25"
libm = "0.2"
noise = "0.9"
