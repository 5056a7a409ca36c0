[package]
name = "concinnity_engine"
version = "0.1.0"
edition = "2021"
publish = false

[dependencies]
serde = { version = "1", features = ["derive"] }
ciborium = "0.2"
gilrs = "*"
tracing = "0.1"
