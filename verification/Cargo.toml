[package]
name = "matrix_frontend"
version = "0.1.0"
edition = "2021"
publish = false

[dependencies]
chrono = "0.4"
nucleo-matcher = "0.3"
linkify = "0.10"
regex = "1"
serde = { version = "1", features = ["derive"] }
serde_json = "1"
rusqlite = { version = "*", features = ["bundled"] }
scraper = "*"
ego-tree = "*"
uuid = { version = "1", features = ["v4"] }
emojis = "*"
ruma = { version = "*", features = ["events"] }
anyhow = "1"
