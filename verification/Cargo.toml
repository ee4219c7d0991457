[package]
name = "claw_expense"
version = "0.1.0"
edition = "2021"
publish = false

[dependencies]
chrono = "0.4"
clap = { version = "4", features = ["derive", "env"] }
directories = "6"
semver = "1"
serde = { version = "1", features = ["derive"] }
serde_json = "1"
sqlx = { version = "0.8", default-features = false, features = ["runtime-tokio", "sqlite", "migrate"] }
tempfile = "3"
tokio = { version = "1", features = ["macros", "rt", "process", "time", "io-util"] }
uuid = { version = "1", features = ["v4"] }
