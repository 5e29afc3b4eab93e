[package]
name = "wxmatch"
version = "0.1.0"
edition = "2021"
publish = false

[dependencies]
anyhow = "1"
arrow = { version = "55", default-features = false }
async-trait = "0.1"
chrono = { version = "0.4", features = ["serde"] }
chrono-tz = "0.10"
clap = { version = "4", features = ["derive", "env"] }
csv = "1"
directories = "6"
parquet = { version = "55", default-features = false, features = ["arrow"] }
reqwest = { version = "0.12", default-features = false, features = ["json", "rustls-tls"] }
serde = { version = "1", features = ["derive"] }
serde_arrow = { version = "0.13", features = ["arrow-55"] }
serde_json = "1"
tokio = { version = "1", features = ["macros", "rt-multi-thread"] }
tracing = "0.1"
tracing-appender = "0.2"
tracing-subscriber = { version = "0.3", features = ["env-filter", "json", "chrono"] }
