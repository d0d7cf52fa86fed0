[package]
name = "comfy_executor"
version = "0.1.0"
edition = "2021"
publish = false

[dependencies]
regex = "=1.13.1"
serde = { version = "=1.0.229", features = ["derive"] }
serde_json = "=1.0.154"
thiserror = "=1.0.69"
image = { version = "0.25", default-features = false }
imageproc = { version = "0.25", default-features = false }
