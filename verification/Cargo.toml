[package]
name = "cloche"
version = "0.1.0"
edition = "2021"
publish = false

[dependencies]
rand = "0.9"
serde = { version = "1", features = ["derive"] }
serde_json = "1"
chrono = { version = "0.4", features = ["serde"] }
clap = { version = "4", features = ["derive"] }
schemars = { version = "0.8", features = ["chrono"] }
image = { version = "0.25", default-features = false, features = ["png", "jpeg"] }
