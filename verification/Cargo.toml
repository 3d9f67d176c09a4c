[package]
name = "mortty"
version = "0.1.0"
edition = "2021"
publish = false

[dependencies]
wgpu = { version = "=23.0.1", default-features = false, features = ["wgsl"] }
vte = "=0.13.1"
portable-pty = "=0.8.1"
anyhow = "=1.0.104"
pollster = "=0.4.0"
serde = { version = "=1.0.229", features = ["derive"] }
toml = "=0.8.23"
dirs = "=5.0.1"
directories = "=5.0.1"
log = "=0.4.35"
env_logger = "=0.11.11"
winit = { version = "0.30", default-features = false, features = ["rwh_06", "x11"] }
glyphon = "0.7"
