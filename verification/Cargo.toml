[package]
name = "dbmonitor"
version = "0.1.0"
edition = "2021"
publish = false

[dependencies]
dashmap = "=6.2.1"
jsonwebtoken = { version = "=11.1.0", features = ["rust_crypto"] }
serde_json = "*"
serde = { version = "*", features = ["derive"] }
axum = { version = "*", features = ["ws"] }
tokio = { version = "*", features = ["macros", "rt-multi-thread", "sync", "time", "net"] }
chrono = "*"
tokio-postgres = { version = "*", features = ["with-chrono-0_4"] }
futures-util = "*"
rand = "*"
