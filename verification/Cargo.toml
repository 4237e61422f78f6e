[package]
name = "baerbot"
version = "0.1.0"
edition = "2021"
publish = false

[dependencies]
dashmap = "*"
indexmap = "*"
rand = "*"
serde = { version = "*", features = ["derive"] }
toml = "*"
clap = { version = "*", features = ["derive"] }
