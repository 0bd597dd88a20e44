[package]
name = "ray_client"
version = "0.1.0"
edition = "2021"
publish = false

[dependencies]
reqwest = { version = "*", default-features = false, features = ["blocking"] }
uuid = { version = "*", features = ["v4"] }
tokio = { version = "*", features = ["rt-multi-thread"] }
