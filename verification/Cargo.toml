[package]
name = "split_transfer"
version = "0.1.0"
edition = "2021"
publish = false

[dependencies]
anyhow = "1"
env_logger = "0.10"
reqwest = { version = "0.11", features = ["json", "multipart"] }
todel = { version = "*", default-features = false }
tokio = { version = "1", features = ["fs", "io-util", "macros", "rt-multi-thread", "time"] }
