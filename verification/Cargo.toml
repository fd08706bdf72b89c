[package]
name = "tira"
version = "0.1.0"
edition = "2021"
publish = false

[dependencies]
fuzzy-matcher = "0.3"
unicode-width = "0.2"
serde = { version = "1", features = ["derive"] }
toml = "0.8"
