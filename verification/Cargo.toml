[package]
name = "sem_os_policy"
version = "0.1.0"
edition = "2021"
publish = false

[dependencies]
serde = { version = "=1.0.229", features = ["derive"] }
serde_json = "=1.0.154"
serde_yaml = "=0.9.34"
sha2 = "=0.10.9"
hex = "=0.4.3"
uuid = { version = "=1.29.0", features = ["serde", "v4"] }
chrono = { version = "=0.4.45", features = ["serde"] }
anyhow = "=1.0.104"
sqlparser = "*"
async-trait = "0.1"
tracing = "0.1"
