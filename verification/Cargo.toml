[package]
name = "rl-core"
version = "0.1.0"
edition = "2021"
publish = false

[dependencies]
chrono = "=0.4.45"
kube = { version = "=5.0.0", default-features = false, features = ["client", "runtime", "rustls-tls", "ws"] }
k8s-openapi = { version = "=0.29.0", features = ["latest"] }
tokio = { version = "=1.54.1", features = ["rt-multi-thread", "macros", "sync", "time", "net", "io-util"] }
futures = "=0.3.34"
serde = { version = "=1.0.229", features = ["derive"] }
serde_json = "=1.0.154"
serde_yaml = "=0.9.34"
toml = "=1.1.8"
