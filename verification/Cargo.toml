[package]
name = "recallai"
version = "0.1.0"
edition = "2021"
publish = false

[dependencies]
ulid = "=1.2.1"
image = { version = "=0.25.10", default-features = false, features = ["jpeg"] }
num_cpus = "=1.17.0"
reqwest = { version = "=0.12.28", default-features = false, features = ["json", "stream"] }
serde = { version = "=1.0.229", features = ["derive"] }
serde_json = "=1.0.154"
thiserror = "=1.0.69"
tokio = { version = "=1.54.1", features = ["full"] }
tokio-util = { version = "=0.7.20", features = ["io"] }
axum = "=0.7.9"
axum-macros = "=0.4.2"
futures = "=0.3.34"
async-stream = "=0.3.6"
bytes = "=1.12.1"
crossbeam-channel = "=0.5.17"
structopt = "=0.3.26"
mime = "=0.3.17"
tracing = "=0.1.44"
tracing-subscriber = { version = "=0.3.23", features = ["env-filter"] }

[dev-dependencies]
crc = "=3.4.0"
