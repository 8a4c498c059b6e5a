[package]
name = "logs_analyzer"
version = "0.1.0"
edition = "2021"
publish = false

[dependencies]
chrono = "0.4"
regex = "1"
colored = "3"
clap = { version = "4", features = ["derive", "cargo"] }
