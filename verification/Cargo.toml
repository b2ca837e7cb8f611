[package]
name = "lighthouse_snake"
version = "0.1.0"
edition = "2021"
publish = false

[dependencies]
rand = "*"
lighthouse-client = "*"
anyhow = "*"
clap = { version = "*", features = ["derive", "env"] }
dotenvy = "*"
futures = "*"
tokio = { version = "*", features = ["macros", "rt", "time"] }
tracing = "*"
tracing-subscriber = "*"
