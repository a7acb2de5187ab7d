[package]
name = "color_picker"
version = "0.1.0"
edition = "2021"
publish = false

[dependencies]
chrono = "0.4"
ratatui = "0.29"
crossterm = "0.28"
arboard = "3"
serde = { version = "1", features = ["derive"] }
serde_json = "1"
dirs = "5"
core-graphics = "0.24"
objc2 = "0.6"
objc2-foundation = "0.3"
objc2-app-kit = "0.3"
objc2-core-graphics = "0.3"
