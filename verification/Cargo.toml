[package]
name = "tz_rust"
version = "0.1.0"
edition = "2021"
publish = false

[dependencies]
chrono = "=0.4.45"
chrono-tz = { version = "=0.10.4", features = ["case-insensitive"] }
clap = { version = "=4.6.7", features = ["derive"] }
