[package]
name = "bec_log_ingestor"
version = "1.9.0"
edition = "2021"
publish = false

[dependencies]
chrono = "0.4"
redis = { version = "*", features = ["tokio-comp"] }
tokio = { version = "1", features = ["full"] }
futures = "0.3"
reqwest = { version = "0.12", default-features = false, features = ["rustls-tls"] }
rustls = "0.23"
clap = { version = "4", features = ["derive"] }
serde = { version = "1", features = ["derive"] }
serde_derive = "1"
serde_json = "1"
rmp-serde = "1"
serde_path_to_error = "0.1"
toml = "*"
prost = "*"
snap = "1"
sysinfo = "*"
thiserror = "2"
gethostname = "*"
