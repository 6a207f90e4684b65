[package]
name = "zhaba"
version = "0.1.0"
edition = "2021"
publish = false

[dependencies]
axum = { version = "0.6", features = ["headers", "multipart"] }
axum-sessions = "*"
bbscope = "*"
chrono = "0.4"
mime_guess = "2"
rand = "0.8"
rusqlite = { version = "*", features = ["bundled"] }
serde = { version = "1", features = ["derive"] }
tokio = { version = "1", features = ["full"] }
tokio-util = { version = "*", features = ["io"] }
toml = "*"
