[package]
name = "swo"
version = "0.1.0"
edition = "2021"
publish = false

[dependencies]
chrono = "*"
nanoid = "*"
serde = { version = "*", features = ["derive"] }
axum = "*"
reqwest = { version = "*", default-features = false, features = ["json"] }
tokio = { version = "*", features = ["rt-multi-thread", "macros", "signal", "net"] }
futures = "*"
