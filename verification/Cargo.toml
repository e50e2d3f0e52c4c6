[package]
name = "apalis_nats"
version = "0.1.0"
edition = "2021"
publish = false

[dependencies]
apalis-core = "*"
async-nats = "*"
bytes = "*"
chrono = "*"
futures = "*"
log = "*"
opentelemetry = "*"
opentelemetry-nats = "*"
serde = { version = "*", features = ["derive"] }
serde_json = "*"
thiserror = "*"
tokio = { version = "*", features = ["rt", "rt-multi-thread", "macros", "time", "sync"] }
tower = { version = "*", features = ["util"] }
tracing = "*"
tracing-opentelemetry = "*"
