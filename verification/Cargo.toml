[package]
name = "gitdrift"
version = "0.1.0"
edition = "2021"
publish = false

[dependencies]
shellexpand = "=3.1.2"
num_cpus = "=1.17.0"
anyhow = "=1.0.104"
clap = { version = "=4.6.7", features = ["derive"] }
crossbeam-channel = "=0.5.17"
crossterm = "=0.28.1"
ratatui = { version = "=0.29.0", features = ["unstable-rendered-line-info"] }
gix = { version = "=0.90.0", default-features = false, features = ["status", "revision", "sha1"] }
ignore = "=0.4.34"
serde = { version = "=1.0.229", features = ["derive"] }
serde_json = "=1.0.154"
toml = "=0.8.23"
