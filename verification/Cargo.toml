[package]
name = "ch57x_keyboard_tool"
version = "0.1.0"
edition = "2021"
publish = false

[dependencies]
anyhow = "*"
serde = { version = "*", features = ["derive"] }
serde_yaml = "*"
