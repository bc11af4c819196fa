[package]
name = "exiftool"
version = "0.1.0"
edition = "2021"
publish = false

[dependencies]
bstr = "*"
serde_json = "*"
tokio = { version = "*", features = ["sync", "time"] }
