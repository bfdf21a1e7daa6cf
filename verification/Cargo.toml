[package]
name = "diary_core"
version = "0.1.0"
edition = "2021"
publish = false

[dependencies]
anyhow = "1"
async-trait = "0.1"
chrono = "0.4"
clap = { version = "4", features = ["derive"] }
rust-ini = "0.21"
sqlx = { version = "0.8", default-features = false, features = ["runtime-tokio", "sqlite", "postgres", "chrono", "migrate", "derive"] }
tokio = { version = "1", features = ["rt-multi-thread", "macros"] }
