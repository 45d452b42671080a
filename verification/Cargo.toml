[package]
name = "modbus_meter"
version = "0.1.0"
edition = "2021"
publish = false

[dependencies]
anyhow = "=1.0.104"
chrono = "=0.4.45"
env_logger = "=0.11.11"
log = "=0.4.34"
serde = { version = "=1.0.229", features = ["derive"] }
serde_yaml = "=0.9.34"
tokio = { version = "=1.53.2", features = ["rt-multi-thread", "macros", "net", "time"] }
tokio-modbus = { version = "=0.17.0", features = ["tcp-server"] }
