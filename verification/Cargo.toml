[package]
name = "pi_whim"
version = "0.1.0"
edition = "2021"
publish = false

[dependencies]
crossbeam-channel = "0.5"
dirs = "*"
serde_json = "1"
unicode-segmentation = "1"
ureq = { version = "3", features = ["json"] }
uuid = { version = "1", features = ["v4"] }
