[package]
name = "panda"
version = "0.1.0"
edition = "2021"
publish = false

[dependencies]
serde = { version = "1", features = ["derive"] }
serde_json = "1"
toml = "*"
url = "2"
uuid = { version = "1", features = ["v4"] }
walkdir = "2"
normalize-path = "*"
reqwest = { version = "0.12", default-features = false, features = ["multipart"] }
tokio = { version = "1", features = ["rt", "macros", "sync"] }
