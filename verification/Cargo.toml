[package]
name = "sliding_sync"
version = "0.1.0"
edition = "2021"
publish = false

[dependencies]
anyhow = "1"
async-stream = "0.3"
futures-core = "0.3"
futures-signals = "0.3"
ruma = { version = "0.5", features = ["events"] }
serde = { version = "1", features = ["derive"] }
serde_json = { version = "1", features = ["raw_value"] }
tracing = "0.1"
url = "2"
