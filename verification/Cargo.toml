[package]
name = "gutenberg_rs"
version = "0.1.0"
edition = "2021"
publish = false

[dependencies]
quick-xml = "0.31"
indexmap = "2"
serde_json = "1"
url = "2"
rusqlite = { version = "0.31", features = ["bundled"] }
reqwest = { version = "0.11", features = ["stream"] }
tokio = { version = "1", features = ["full"] }
futures-util = "0.3"
indicatif = "0.17"
bzip2 = "0.4"
tar = "0.4"
walkdir = "2"
thiserror = "1"
