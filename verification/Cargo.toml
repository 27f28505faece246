[package]
name = "jcode_desktop2"
version = "0.1.0"
edition = "2021"
publish = false

[dependencies]
unicode-width = "0.2"
serde = { version = "1", features = ["derive"] }
serde_json = "1"
