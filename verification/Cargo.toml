[package]
name = "logicsider"
version = "0.1.0"
edition = "2021"
publish = false

[dependencies]
rand = "=0.8.8"
serde = { version = "=1.0.229", features = ["derive"] }
serde_json = "=1.0.154"
ron = "=0.8.1"
image = { version = "=0.24.9", default-features = false, features = ["png"] }
toml = "0.7"
