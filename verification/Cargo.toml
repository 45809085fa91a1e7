[package]
name = "aghub_core"
version = "0.1.0"
edition = "2021"
publish = false

[dependencies]
chrono = "=0.4.45"
dirs = "=7.0.0"
log = "=0.4.35"
serde = { version = "=1.0.229", features = ["derive"] }
serde_json = "1"
serde_yaml = "=0.9.34"
thiserror = "=2.0.21"

[dev-dependencies]
tempfile = "=3.27.0"
