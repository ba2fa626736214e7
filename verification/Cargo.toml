[package]
name = "udx710_core"
version = "0.1.0"
edition = "2021"
publish = false

[dependencies]
chrono = "=0.4.45"
serde = { version = "=1.0.229", features = ["derive"] }
serde_json = "=1.0.151"
rusqlite = { version = "=0.40.2", features = ["bundled"] }
tokio = { version = "=1.53.2", features = ["rt-multi-thread", "macros", "time", "sync", "signal", "process", "fs"] }
reqwest = { version = "=0.13.5", default-features = false }
zbus = "=5.19.0"
futures-util = "=0.3.34"
