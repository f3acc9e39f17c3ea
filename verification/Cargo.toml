[package]
name = "slayfi"
version = "0.1.0"
edition = "2021"
publish = false

[dependencies]
aho-corasick = "1"
freedesktop-icons = "*"
walkdir = "2"
serde = { version = "1", features = ["derive"] }
serde_json = "1"
