[package]
name = "llm"
version = "0.1.0"
edition = "2021"
publish = false

[dependencies]
unicode-segmentation = "=1.13.3"
unicode-width = "=0.2.3"
dirs = "=7.0.0"
base64 = "=0.22.1"
thiserror = "=2.0.21"
anyhow = "=1.0.104"
serde = { version = "=1.0.229", features = ["derive"] }
serde_json = "=1.0.154"
toml = "=1.1.8"
clap = { version = "=4.6.7", features = ["derive"] }
uuid = { version = "=1.29.0", features = ["v4", "serde"] }
chrono = { version = "=0.4.45", default-features = false, features = ["clock", "std", "serde"] }
serde_yaml = "=0.9.34"
colored = "*"
comfy-table = "*"
textwrap = "*"
edit = "*"
rustyline = "*"
spinners = "*"
hostname = "*"
flexi_logger = "*"
