[package]
name = "mufw"
version = "0.1.0"
edition = "2021"
publish = false

[dependencies]
ipnet = { version = "2", features = ["serde"] }
serde = { version = "1", features = ["derive"] }
serde_json = "1"
toml = "0.8"
clap = { version = "4", features = ["derive"] }
anyhow = "1"
thiserror = "1"
nix = { version = "0.29", features = ["user"] }
tabled = "0.16"
tracing-subscriber = { version = "0.3", features = ["env-filter"] }
