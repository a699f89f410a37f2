[package]
name = "downloader"
version = "0.1.0"
edition = "2021"
publish = false

[dependencies]
anyhow = "=1.0.104"
clap = { version = "=4.6.7", features = ["derive"] }
serde_json = "=1.0.154"
time = { version = "=0.3.55", features = ["serde"] }
tokio = { version = "=1.54.1", features = ["fs", "macros", "rt-multi-thread"] }

[dev-dependencies]
serde = "=1.0.229"
