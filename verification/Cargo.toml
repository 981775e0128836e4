[package]
name = "apirun"
version = "0.1.0"
edition = "2021"
publish = false

[dependencies]
serde_json = "=1.0.151"
serde = { version = "=1.0.229", features = ["derive"] }
clap = { version = "=4.6.7", features = ["derive"] }
anyhow = "=1.0.104"
reqwest = { version = "=0.13.5", default-features = false, features = ["blocking", "multipart", "form", "query"] }
