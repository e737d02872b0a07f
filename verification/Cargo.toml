[package]
name = "rdembedded"
version = "0.1.0"
edition = "2021"
publish = false

[dependencies]
uuid = "1"
anyhow = "1"
env_logger = "0.11"
log = "0.4"
nix = { version = "0.29", features = ["user"] }
reqwest = { version = "0.12", default-features = false, features = ["json"] }
serde = { version = "1", features = ["derive"] }
serde_yaml = "0.9"
tokio = { version = "1", features = ["macros", "net", "rt-multi-thread", "time"] }
