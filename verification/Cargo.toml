[package]
name = "doip_uds"
version = "0.1.0"
edition = "2021"
publish = false

[dependencies]
chrono = { version = "0.4", default-features = false, features = ["clock", "std"] }
env_logger = { version = "*", default-features = false }
hex = "0.4"
log = "0.4"
serde = { version = "1", features = ["derive"] }
serde_json = "1"
surge-ping = "*"
thiserror = "*"
tokio = { version = "1", features = ["net", "io-util", "time", "sync", "rt", "macros"] }
