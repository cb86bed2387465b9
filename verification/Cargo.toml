[package]
name = "nanopulse_core"
version = "0.1.0"
edition = "2021"
publish = false

[dependencies]
serde = { version = "1", features = ["derive"] }
serde_json = "1"
minicbor = { version = "*", features = ["derive", "std"] }
config = "*"
tracing = "0.1"
tracing-subscriber = "0.3"
