[package]
name = "orderbook"
version = "0.1.0"
edition = "2021"
publish = false

[dependencies]
chrono = "*"
clearscreen = "*"
serde = { version = "*", features = ["derive"] }
serde_json = "*"
tungstenite = "*"
url = "*"
