[package]
name = "engine"
version = "0.1.0"
edition = "2021"
publish = false

[dependencies]
ahash = "=0.7.8"
anyhow = "=1.0.104"
hashbrown = { version = "=0.11.2", features = ["serde"] }
rayon = "=1.12.0"
serde = { version = "=1.0.229", features = ["derive"] }
serde_json = "=1.0.154"
tantivy = { version = "=0.16.1", default-features = false, features = ["mmap", "snappy-compression"] }
tokio = { version = "=1.54.1", features = ["sync"] }
