[package]
name = "botracers"
version = "0.1.0"
edition = "2021"
publish = false

[dependencies]
elf = "0.7"
urlencoding = "2"
serde = { version = "1", features = ["derive"] }
serde_json = "1"
