[package]
name = "ursula_runtime"
version = "0.1.0"
edition = "2021"
publish = false

[dependencies]
bytes = "=1.12.1"
crc32fast = "=1.5.4"
futures-util = "=0.3.34"
opendal = { version = "=0.59.5", default-features = false, features = ["layers-retry", "layers-timeout", "services-memory", "services-s3"] }
serde = { version = "=1.0.229", features = ["derive"] }
serde_json = "=1.0.154"
thiserror = "=2.0.21"
tokio = { version = "=1.54.1", features = ["macros", "rt", "rt-multi-thread", "sync", "time"] }
tracing = "=0.1.44"
