[package]
name = "aur_search"
version = "0.1.0"
edition = "2021"
publish = false

[dependencies]
chrono = { version = "0.4", features = ["serde"] }
crossterm = { version = "0.25", features = ["event-stream"] }
futures = "0.3"
percent-encoding = "2"
reqwest = { version = "0.11", features = ["json"] }
serde = { version = "1", features = ["derive"] }
tokio = { version = "1", features = ["macros", "rt", "sync", "time"] }
tui = "0.19"
unicode-width = "0.1"
