[package]
name = "reckon"
version = "0.1.0"
edition = "2021"
publish = false

[dependencies]
regex = "1"
serde = { version = "1", features = ["derive"] }
serde_json = "1"
serde_yaml = "0.9"
clap = { version = "4", features = ["derive"] }
anyhow = "1"
chrono = "0.4"
git2 = { version = "*", default-features = false }
rusqlite = { version = "*", features = ["bundled"] }
tracing = "0.1"
tracing-subscriber = { version = "0.3", features = ["env-filter"] }
fastembed = { version = "*", default-features = false }

[dev-dependencies]
tempfile = "3"
