[package]
name = "rong-server"
version = "0.1.0"
edition = "2021"
publish = false

[dependencies]
rand = "0.8"
tokio = { version = "1", features = ["net", "time", "sync", "rt-multi-thread", "macros"] }
log = "0.4"
env_logger = "0.11"
thiserror = "1"

[dev-dependencies]
bincode = "1.3"
