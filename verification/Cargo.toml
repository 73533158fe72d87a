[package]
name = "shadowverse_collection"
version = "0.1.0"
edition = "2021"
publish = false

[dependencies]
scraper = "*"
ureq = "*"
rusqlite = { version = "*", features = ["bundled"] }
dirs-next = "*"
serde = { version = "*", features = ["derive"] }
serde_yaml = "*"
