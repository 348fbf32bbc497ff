[package]
name = "surface"
version = "0.1.0"
edition = "2021"
publish = false

[dependencies]
time = "0.3"
ulid = "1"
serde = { version = "1", features = ["derive"] }
serde_json = "1"
clap = { version = "4", features = ["derive"] }
