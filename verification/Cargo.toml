[package]
name = "mdreader_core"
version = "0.1.0"
edition = "2021"
publish = false

[dependencies]
notify = "*"
chrono = "*"
serde = { version = "*", features = ["derive"] }
serde_json = "*"
dirs = "*"

[dev-dependencies]
tempfile = "*"
