[package]
name = "spotify_sync"
version = "0.1.0"
edition = "2021"
publish = false

[dependencies]
anyhow = "*"
clap = { version = "*", features = ["derive"] }
crossterm = "*"
dotenv = "*"
ratatui = "*"
tokio = { version = "*", features = ["macros", "rt-multi-thread", "sync"] }
