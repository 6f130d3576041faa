[package]
name = "parametric_ui"
version = "0.1.0"
edition = "2021"
publish = false

[dependencies]
serde = { version = "=1.0.229", features = ["derive"] }
serde_json = "=1.0.154"
nalgebra = "=0.35.0"
nanovg = { version = "=1.0.2", features = ["gl3"] }
