[package]
name = "textgen"
version = "0.1.0"
edition = "2021"
publish = false

[dependencies]
tokio = { version = "*", features = ["process", "io-util", "rt", "rt-multi-thread", "macros", "time"] }
tokio-stream = "*"
async-stream = "*"
ollama-rs = { version = "*", features = ["stream"] }
