[package]
name = "periodic"
version = "0.1.0"
edition = "2021"
publish = false

[dependencies]
shellwords = "*"
chrono = "*"
clap = "*"
serde = { version = "*", features = ["derive"] }
serde_yaml = "*"
tokio = { version = "*", features = ["rt", "time", "process", "signal", "macros"] }
