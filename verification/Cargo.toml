[package]
name = "manifestvault-engine"
version = "0.1.0"
edition = "2021"
publish = false

[dependencies]
clap = { version = "4", features = ["derive"] }
k8s-openapi = { version = "0.22", features = ["v1_30"] }
serde = { version = "1", features = ["derive"] }
serde_ignored = "0.1"
serde_json = "1"
serde_yaml = "0.9"
thiserror = "2"
tokio = { version = "1", features = ["fs", "macros", "rt-multi-thread"] }
tracing = "0.1"
