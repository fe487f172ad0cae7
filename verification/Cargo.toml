[package]
name = "gitu"
version = "0.1.0"
edition = "2021"
publish = false

[dependencies]
ratatui = { version = "=0.30.2", features = ["crossterm"] }
crossterm = "=0.27.0"
git2 = "=0.18.3"
ansi-to-tui = "=3.1.0"
