[package]
name = "rumblebot"
version = "0.1.0"
edition = "2021"
publish = false

[dependencies]
anyhow = "=1.0.104"
serde = { version = "=1.0.229", features = ["derive"] }
serde_json = "=1.0.151"
shell-words = "=1.1.1"
tempfile = "=3.27.0"
tokio = { version = "=1.53.2", features = ["io-util", "macros", "process", "rt", "rt-multi-thread", "sync", "time"] }
wasmer = "=3.1.1"
wasmer-cache = "=3.1.1"
wasmer-wasi = "=3.1.1"
