[package]
name = "rfcs"
version = "0.1.0"
edition = "2021"
publish = false

[dependencies]
git2 = "*"
walkdir = "*"
anyhow = "*"
clap = { version = "*", features = ["derive"] }
serde = { version = "*", features = ["derive"] }
toml = "*"

[dev-dependencies]
tempfile = "*"
