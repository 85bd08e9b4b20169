[package]
name = "neutron_agent"
version = "0.9.0"
edition = "2021"
publish = false

[dependencies]
axum = { version = "=0.8.9", features = ["json"] }
serde = { version = "=1.0.229", features = ["derive"] }
serde_json = "=1.0.154"
sha2 = "=0.10.9"
tokio = { version = "=1.54.1", features = ["fs", "macros", "net", "process", "rt-multi-thread", "sync", "time"] }
tracing = "=0.1.44"
