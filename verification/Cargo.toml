[package]
name = "avc"
version = "0.1.0"
edition = "2021"
publish = false

[dependencies]
anyhow = "1"
chrono = "0.4"
dirs = "5"
futures = "0.3"
hyper = { version = "0.14", features = ["client", "http1", "tcp"] }
maud = { version = "0.26", features = ["rocket"] }
open = "5"
rocket = "0.5"
rusqlite = { version = "0.31", features = ["bundled"] }
serde = "1"
serde_derive = "1"
serde_json = "1"
systray = "0.4"
tokio = { version = "1", features = ["rt-multi-thread"] }
winapi = { version = "0.3", features = ["winuser"] }
