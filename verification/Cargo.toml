[package]
name = "what_was_that"
version = "0.1.0"
edition = "2021"
publish = false

[dependencies]
clap = { version = "3.2", features = ["derive", "env"] }
fuzzy-matcher = "0.3"
serde_json = "1"
