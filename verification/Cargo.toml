[package]
name = "cutliner"
version = "0.1.0"
edition = "2021"
publish = false

[dependencies]
getrandom = "=0.4.3"
opencv = { version = "=0.101.1", default-features = false, features = ["imgproc", "imgcodecs", "photo"] }
serde = { version = "=1.0.229", features = ["derive"] }
tokio = { version = "=1.54.1", features = ["rt"] }
uuid = { version = "=1.29.1", features = ["v4"] }
