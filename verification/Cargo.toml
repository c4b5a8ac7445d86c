[package]
name = "pinner"
version = "0.1.0"
edition = "2021"
publish = false

[dependencies]
regex = "=1.13.1"
semver = "=1.0.28"
globset = "=0.4.21"
colored = "=3.1.1"
similar = "=2.7.0"
toml = "=0.8.23"
serde = { version = "=1.0.229", features = ["derive"] }
serde_json = "=1.0.154"
clap = { version = "=4.6.7", features = ["derive", "env"] }
clap_complete = "=4.6.11"
tokio = { version = "=1.54.1", features = ["rt-multi-thread", "macros"] }
tree-sitter = "=0.25.10"
tree-sitter-yaml = "=0.7.2"
dialoguer = "=0.11.0"
dirs = "=6.0.0"
chrono = "=0.4.45"
anyhow = "=1.0.104"
ignore = "=0.4.34"
reqwest = { version = "=0.12.28", default-features = false, features = ["json", "rustls-tls"] }
futures = "=0.3.34"
async-trait = "=0.1.92"
thiserror = "=2.0.21"
figment = { version = "=0.10.19", features = ["toml", "yaml", "env"] }
base64 = "=0.22.1"
docker_credential = "*"
