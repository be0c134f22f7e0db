[package]
name = "mqtt-client"
version = "0.1.0"
edition = "2021"
publish = false

[dependencies]
heapless = "=0.8.0"
serde_json = "=1.0.154"
embassy-sync = "=0.6.2"
embassy-time = { version = "=0.4.0", features = ["std"] }
embassy-futures = "=0.1.2"
serde = { version = "=1.0.229", features = ["derive"] }
toml = "=0.8.23"
tungstenite = "=0.24.0"
ureq = "3"
tokio = { version = "=1.54.1", features = ["rt", "rt-multi-thread", "time", "sync", "macros"] }
futures = "=0.3.34"
bluer = { version = "=0.17.4", features = ["bluetoothd"] }
log = "=0.4.35"
env_logger = "=0.11.11"
