[package]
name = "sol2seq"
version = "0.1.0"
edition = "2021"
publish = false

[dependencies]
serde_json = "*"
indexmap = "*"
itertools = "*"
anyhow = "*"
env_logger = "*"
clap = { version = "*", features = ["derive"] }
