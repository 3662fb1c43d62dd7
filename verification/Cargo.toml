[package]
name = "image_engine"
version = "0.1.0"
edition = "2021"
publish = false

[dependencies]
base64 = "*"
image = "*"
imageproc = "*"
ab_glyph = "*"
font-kit = "*"
serde = { version = "*", features = ["derive"] }
serde_json = "*"
dirs = "*"
