[package]
name = "vig"
version = "0.1.0"
edition = "2021"
publish = false

[dependencies]
anyhow = "1"
arboard = { version = "3", default-features = false }
crossterm = "0.28"
git2 = { version = "0.19", default-features = false }
notify = "6"
notify-debouncer-mini = "0.4"
ratatui = "0.29"
self_update = { version = "0.42", default-features = false, features = ["rustls", "signatures"] }
serde = { version = "1", features = ["derive"] }
serde_json = "1"
syntect = { version = "5", default-features = false, features = ["default-fancy"] }
