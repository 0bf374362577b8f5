[package]
name = "wolf3d-rs"
version = "0.1.0"
edition = "2021"
publish = false

[dependencies]
byteorder = "=1.5.0"
anyhow = "1"
log = "0.4"
env_logger = "0.11"
image = { version = "0.25", default-features = false, features = ["png"] }
serde = { version = "1", features = ["derive"] }
serde_json = "1"
winit = { version = "0.30", default-features = false, features = ["rwh_06", "x11"] }
