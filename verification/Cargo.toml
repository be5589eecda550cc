[package]
name = "bestelampe"
version = "0.1.0"
edition = "2021"
publish = false

[dependencies]
delaunator = "*"
serde = { version = "*", features = ["derive"] }
serde_json = "*"
