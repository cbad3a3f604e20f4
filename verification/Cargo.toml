[package]
name = "cedict_lookup"
version = "0.1.0"
edition = "2021"
publish = false

[dependencies]
anyhow = "1"
arboard = "3"
image = { version = "0.25", default-features = false }
md-5 = "0.10"
ocr-rs = "*"
rusqlite = { version = "*", features = ["bundled"] }
serde = { version = "1", features = ["derive"] }
