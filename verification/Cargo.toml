[package]
name = "file_count"
version = "0.1.0"
edition = "2021"
publish = false

[dependencies]
derive_more = "0.99"
html_parser = "*"
infer = "*"
roxmltree = "0.14"
serde = { version = "1", features = ["derive"] }
serde_json = "1"
unicode-segmentation = "1"
zip = { version = "0.6", default-features = false, features = ["deflate"] }
