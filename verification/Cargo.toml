[package]
name = "runa"
version = "0.1.0"
edition = "2021"
publish = false

[dependencies]
fuzzy-matcher = "=0.3.7"
unicode-width = "=0.2.3"
uzers = "=0.12.2"
which = "=8.0.6"
chrono = "=0.4.45"
humansize = "=2.1.3"
crossterm = "=0.29.0"
serde = { version = "=1.0.229", features = ["derive"] }
toml = "=1.1.8"
trash = "*"
