[package]
name = "cursed-tetris"
version = "0.1.0"
edition = "2021"
publish = false

[dependencies]
rand = "*"
rustrict = "*"
ratatui = "*"
crossterm = "*"
tui-big-text = "*"
rusqlite = { version = "*", features = ["bundled"] }
dirs = "*"
serde = { version = "*", features = ["derive"] }
serde_json = "*"
