[package]
name = "bitte"
version = "0.1.0"
edition = "2021"
publish = false

[dependencies]
anyhow = "=1.0.104"
aws-config = "0.15"
aws-sdk-ec2 = "0.15"
clap = { version = "=3.2.25", features = ["derive", "env"] }
clap_complete = "=3.2.5"
enum-utils = "=0.1.2"
log = "=0.4.34"
netrc-rs = "=0.1.2"
pretty_env_logger = "=0.4.0"
prettytable-rs = "=0.10.0"
reqwest = { version = "=0.11.27", default-features = false, features = ["json", "gzip", "rustls-tls"] }
serde = { version = "=1.0.229", features = ["derive"] }
serde_json = "=1.0.154"
thiserror = "=1.0.69"
tokio = { version = "=1.54.1", features = ["full"] }
uuid = { version = "=1.29.0", features = ["serde"] }
