[package]
name = "tsic"
version = "0.1.0"
edition = "2021"
publish = false

[dependencies]
clap = { version = "4", features = ["derive"] }
crossterm = "*"
hound = "3"
midly = "0.5"
rodio = "*"
serde = { version = "1", features = ["derive"] }
toml = "*"
