[package]
name = "maze_daw"
version = "0.1.0"
edition = "2021"
publish = false

[dependencies]
anyhow = "*"
chrono = "*"
cpal = "*"
crossterm = "*"
dirs = "*"
log = "*"
rand = "*"
ratatui = "*"
rodio = "*"
serde = { version = "*", features = ["derive"] }
serde_json = "*"
uuid = { version = "*", features = ["v4"] }
