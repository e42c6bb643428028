[package]
name = "plenum"
version = "0.1.0"
edition = "2021"
publish = false

[dependencies]
scraper = "*"
encoding_rs = "*"
serde = { version = "*", features = ["derive"] }
serde_json = "*"
