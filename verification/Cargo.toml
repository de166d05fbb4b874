[package]
name = "quarkevm"
version = "0.1.0"
edition = "2021"
publish = false

[dependencies]
sqlite = "*"
hex = "*"
serde = { version = "*", features = ["derive"] }
serde_json = "*"
clap = { version = "*", features = ["derive"] }
