[package]
name = "chat_app"
version = "0.1.0"
edition = "2021"
publish = false

[dependencies]
argon2 = { version = "0.5", features = ["std"] }
base64 = "0.21"
rand = "0.8"
chrono = { version = "0.4", features = ["serde"] }
diesel = { version = "2", features = ["sqlite", "r2d2", "chrono"] }
diesel_migrations = "2"
r2d2 = "0.8"
thiserror = "1"
eyre = "0.6"
serde = { version = "1", features = ["derive"] }
serde_json = "1"
rocket = { version = "0.5", features = ["json"] }
tokio = { version = "1", features = ["rt-multi-thread", "macros", "sync", "time"] }
tokio-util = "0.7"
reqwest = { version = "0.11", default-features = false, features = ["json"] }
reqwest-eventsource = "0.4"
tui = "0.19"
crossterm = "0.25"
