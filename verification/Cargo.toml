[package]
name = "imgzip"
version = "0.1.0"
edition = "2021"
publish = false

[dependencies]
image = "0.24"
zip = { version = "0.6", default-features = false, features = ["deflate"] }
strum = { version = "0.24", features = ["derive"] }
rocket = "0.5"
