[package]
name = "sessio"
version = "0.1.0"
edition = "2021"
publish = false

[dependencies]
rand = "*"
chrono = "*"
dirs = "*"
rodio = "*"
serde = { version = "*", features = ["derive"] }
toml = "*"
walkdir = "*"
