[package]
name = "rab"
version = "0.1.0"
edition = "2021"
publish = false

[dependencies]
unicode-width = "*"
unicode-segmentation = "*"
base64 = "*"
regex = "*"
crossterm = "*"
serde_json = "*"
