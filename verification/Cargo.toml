[package]
name = "impetus_ext"
version = "0.1.0"
edition = "2021"
publish = false

[dependencies]
sha2 = "*"
semver = "*"
url = "*"
regex = "*"
serde = { version = "*", features = ["derive"] }
serde_json = "*"
tokio = { version = "*", features = ["full"] }
clap = { version = "*", features = ["derive"] }
anyhow = "*"
reqwest = { version = "*", default-features = false }
walkdir = "*"
tracing-subscriber = { version = "*", features = ["env-filter"] }
toml = "*"
tempfile = "*"
