[package]
name = "agentos_core"
version = "0.1.0"
edition = "2021"
publish = false

[dependencies]
serde = { version = "=1.0.229", features = ["derive"] }
serde_json = "=1.0.154"
chrono = { version = "=0.4.45", features = ["serde"] }
thiserror = "=2.0.21"
async-trait = "=0.1.92"
tokio = { version = "=1.54.1", features = ["rt", "macros", "time", "fs", "sync"] }
serde_yml = "=0.0.13"
reqwest = { version = "=0.12.28", default-features = false, features = ["json"] }
tempfile = "=3.27.0"
