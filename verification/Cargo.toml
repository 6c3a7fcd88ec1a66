[package]
name = "kotomori"
version = "0.1.0"
edition = "2021"
publish = false

[dependencies]
anyhow = "1"
clap = { version = "4", features = ["derive"] }
confy = "*"
crossterm = "*"
home = "*"
lexiclean = "*"
ratatui-textarea = { version = "*", features = ["crossterm"] }
rusqlite = { version = "*", features = ["bundled"] }
serde = { version = "1", features = ["derive"] }
serde_json = "1"
smallvec = "1"
tokio = { version = "1", features = ["full"] }
unicode-width = "*"
