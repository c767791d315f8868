[package]
name = "pdf2txt_precedent"
version = "0.1.0"
edition = "2021"
publish = false

[dependencies]
anyhow = "1"
clap = { version = "4", features = ["derive"] }
regex = "1"
reqwest = "0.11"
serde_json = "1"
tokio = { version = "1", features = ["full"] }
tokio-stream = "0.1"
