[package]
name = "grazie"
version = "0.1.0"
edition = "2021"
publish = false

[dependencies]
serde = "*"
serde_json = "*"
serde-xml-rs = "*"
hyper = "*"
tokio = { version = "*", features = ["net", "rt"] }
