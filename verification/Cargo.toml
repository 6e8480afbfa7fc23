[package]
name = "drawafunc"
version = "0.1.0"
edition = "2021"
publish = false

[dependencies]
eframe = "0.31"
serde = { version = "1", features = ["derive"] }
serde_json = "1"
