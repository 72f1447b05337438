[package]
name = "pm_ingest"
version = "0.1.0"
edition = "2021"
publish = false

[dependencies]
serde_json = "=1.0.151"
chrono = "=0.4.45"
anyhow = "*"
tokio = { version = "1", features = ["macros", "rt-multi-thread", "sync", "time"] }
reqwest = { version = "*", default-features = false, features = ["query"] }
deadpool-postgres = "*"
tokio-postgres = { version = "*", features = ["with-chrono-0_4"] }
lambda_runtime = "*"
tracing = "*"
tracing-subscriber = { version = "*", features = ["env-filter"] }
