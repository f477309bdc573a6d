[package]
name = "shader_runtime"
version = "0.1.0"
edition = "2021"
publish = false

[dependencies]
isf = "=0.1.0"
nannou = "0.15"
notify = "=4.0.18"
serde = { version = "=1.0.229", features = ["derive"] }
serde_json = "=1.0.154"
