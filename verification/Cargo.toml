[package]
name = "lesson_layout"
version = "0.1.0"
edition = "2021"
publish = false

[dependencies]
chrono = "0.4"
substring = "1"
clap = "2"
confy = "*"
crossterm = "0.25"
serde = { version = "1", features = ["derive"] }
serde_json = "1"
tokio = { version = "1", features = ["full"] }
tui = "0.19"
