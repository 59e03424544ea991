[package]
name = "mcfly"
version = "0.1.0"
edition = "2021"
publish = false

[dependencies]
itertools = "0.10"
rusqlite = { version = "0.15", features = ["bundled", "functions"] }
winapi = { version = "0.3", features = ["winuser"] }
