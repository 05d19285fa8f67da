[package]
name = "logview"
version = "0.1.0"
edition = "2021"
publish = false

[dependencies]
fuzzy-matcher = "*"
chrono = "*"
tokio = { version = "*", features = ["rt-multi-thread", "macros", "sync", "time"] }
ratatui = "*"
crossterm = "*"
futures = "*"
color-eyre = "*"
aws-config = "*"
aws-sdk-cloudwatchlogs = "*"
