[package]
name = "mqtt_adls_bridge"
version = "0.1.0"
edition = "2021"
publish = false

[dependencies]
serde_json = "=1.0.154"
chrono = { version = "=0.4.45", features = ["serde"] }
uuid = { version = "=1.29.0", features = ["v4"] }
bytes = "=1.12.1"
serde = { version = "=1.0.229", features = ["derive"] }
log = "=0.4.34"
env_logger = "=0.11.11"
dotenv = "=0.15.0"
tokio = { version = "=1.54.1", features = ["macros", "rt-multi-thread"] }
paho-mqtt = "=0.14.0"
azure_core = "=0.21.0"
azure_storage = "=0.21.0"
azure_storage_datalake = "=0.21.0"
