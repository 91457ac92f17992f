[package]
name = "zero2prod"
version = "0.1.0"
edition = "2021"
publish = false

[dependencies]
validator = "0.18"
unicode-segmentation = "1"
uuid = { version = "1", features = ["v4"] }
rand = "0.8"
