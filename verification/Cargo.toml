[package]
name = "rust_epub_reader"
version = "0.1.0"
edition = "2021"
publish = false

[dependencies]
sha2 = "0.10"
hex = "0.4"
rand = "0.8"
serde_json = "1"
base64 = "0.22"
urlencoding = "2"
serde = { version = "1", features = ["derive"] }
anyhow = "1"
tempfile = "3"
reqwest = { version = "0.12", default-features = false, features = ["blocking", "json", "rustls-tls"] }
