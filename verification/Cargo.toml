[package]
name = "booglanim"
version = "0.1.0"
edition = "2021"
publish = false

[dependencies]
serde = { version = "*", features = ["derive"] }
serde_json = "*"
lyon = "*"
image = { version = "*", default-features = false, features = ["png"] }
