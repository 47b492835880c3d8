[package]
name = "rocky_rs"
version = "0.1.0"
edition = "2021"
publish = false

[dependencies]
anyhow = "*"
byte-unit = "*"
clap = { version = "*", features = ["derive"] }
env_logger = "*"
gethostname = "*"
hostname = "*"
log = "*"
port_scanner = "*"
portpicker = "*"
prometheus = "*"
serde = { version = "*", features = ["derive"] }
serde_json = "*"
serde_yaml = "*"
tokio = { version = "*", features = ["full"] }
uuid = { version = "*", features = ["v4"] }
