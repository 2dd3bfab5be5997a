[package]
name = "reqwest_sse"
version = "0.1.0"
edition = "2021"
publish = false

[dependencies]
async-stream = "*"
reqwest = { version = "0.12", default-features = false, features = ["stream"] }
tokio-stream = "*"
