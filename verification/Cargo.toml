[package]
name = "vox_scene"
version = "0.1.0"
edition = "2021"
publish = false

[dependencies]
dot_vox = "*"
serde = { version = "*", features = ["derive"] }
