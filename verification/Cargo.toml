[package]
name = "cand"
version = "0.1.0"
edition = "2021"
publish = false

[dependencies]
anyhow = "1"
byteorder = "=1.5.0"
bytes = "=1.12.1"
ciborium = "=0.2.2"
clap = { version = "4", features = ["cargo"] }
env_logger = "0.11"
futures = "0.3"
hex = "=0.4.3"
log = "0.4"
nix = { version = "0.29", features = ["socket", "net"] }
semver = "=1.0.28"
serde = { version = "1", features = ["derive"] }
serde_yaml = "0.9"
slotmap = "=1.1.1"
thiserror = "1"
tokio = { version = "1", features = ["full"] }
tokio-socketcan = "0.3"
tokio-util = { version = "0.7", features = ["codec"] }
toml = "0.8"
