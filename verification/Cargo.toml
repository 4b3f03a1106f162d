[package]
name = "bingo"
version = "0.1.0"
edition = "2021"
publish = false

[dependencies]
getrandom = { version = "0.2", features = ["js"] }
worker = "*"
serde = { version = "1", features = ["derive"] }
serde_json = "1"

[dev-dependencies]
hex = "0.4"
