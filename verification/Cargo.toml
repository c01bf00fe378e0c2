[package]
name = "reading_core"
version = "0.1.0"
edition = "2021"
publish = false

[dependencies]
unicode-segmentation = "1"
jieba-rs = "*"
serde_json = "1"
serde = { version = "1", features = ["derive"] }
lazy_static = "1"
