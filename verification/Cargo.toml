[package]
name = "sf_logs"
version = "0.1.0"
edition = "2021"
publish = false

[dependencies]
anyhow = "*"
chrono = "*"
clap = "*"
rayon = "*"
serde = { version = "*", features = ["derive"] }
serde_json = "*"
