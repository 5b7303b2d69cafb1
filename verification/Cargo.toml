[package]
name = "oxibot"
version = "0.1.0"
edition = "2021"
publish = false

[dependencies]
serenity = "0.12"
sqlx = { version = "0.8", default-features = false, features = ["postgres", "runtime-tokio", "macros"] }
tokio = { version = "1", features = ["rt-multi-thread", "macros", "signal"] }
