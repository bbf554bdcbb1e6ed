[package]
name = "slick_dataui"
version = "0.1.0"
edition = "2021"
publish = false

[dependencies]
sqlx = { version = "=0.9.0", default-features = false, features = ["runtime-tokio", "sqlite", "postgres"] }
tokio = { version = "=1.53.2", default-features = false, features = ["rt-multi-thread"] }
keyring = { version = "=3.6.3", default-features = false }
dirs = "=7.0.0"
