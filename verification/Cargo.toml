[package]
name = "rik"
version = "0.1.0"
edition = "2021"
publish = false

[dependencies]
route-recognizer = "*"
tiny_http = "*"
rusqlite = { version = "*", features = ["bundled"] }
serde = { version = "*", features = ["derive"] }
serde_json = "*"
curl = "*"
firepilot = "*"
tokio = { version = "*", features = ["rt", "macros"] }
colored = "*"
