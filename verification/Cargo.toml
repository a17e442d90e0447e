[package]
name = "kyoto"
version = "0.1.0"
edition = "2021"
publish = false

[dependencies]
bitcoin = "0.32"
rand = "0.8"
rusqlite = { version = "0.31", features = ["bundled"] }
thiserror = "1"
tokio = { version = "1", features = ["full"] }
tracing = "0.1"
tracing-subscriber = "0.3"
