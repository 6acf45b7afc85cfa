[package]
name = "rspotd"
version = "0.1.0"
edition = "2021"
publish = false

[dependencies]
block-modes = "0.8"
block-padding = "0.2"
des = "0.7"
serde = { version = "1", features = ["derive"] }
time = { version = "0.3", features = ["parsing"] }

[dev-dependencies]
regex = "1"
