[package]
name = "rusty_herbarium"
version = "0.1.0"
edition = "2021"
publish = false

[dependencies]
image = "*"
serde = { version = "*", features = ["derive"] }
serde_json = "*"
bincode = "1"
flate2 = "*"
