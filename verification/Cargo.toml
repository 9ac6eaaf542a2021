[package]
name = "asimeow"
version = "0.1.0"
edition = "2021"
publish = false

[dependencies]
glob = "*"
dirs = "*"
anyhow = "*"
clap = { version = "*", features = ["derive"] }
serde = { version = "*", features = ["derive"] }
serde_yaml = "*"
