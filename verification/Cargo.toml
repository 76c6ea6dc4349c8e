[package]
name = "pgtest"
version = "0.1.0"
edition = "2021"
publish = false

[dependencies]
anyhow = "1"
bytes = "1"
datadriven = "0.6"
fallible-iterator = "0.2"
postgres-protocol = "0.6"
serde = { version = "1", features = ["derive"] }
serde_json = "1"
