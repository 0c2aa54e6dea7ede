[package]
name = "codanna"
version = "0.1.0"
edition = "2021"
publish = false

[dependencies]
sha2 = "=0.10.9"
rand = "=0.9.5"
serde = { version = "=1.0.229", features = ["derive"] }
serde_json = "=1.0.154"
toml = "=0.8.23"
figment = { version = "=0.10.19", features = ["toml", "env"] }
dirs = "=5.0.1"
num_cpus = "=1.17.0"
thiserror = "=1.0.69"
chrono = "0.4"
