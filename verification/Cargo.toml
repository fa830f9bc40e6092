[package]
name = "crablet"
version = "0.1.0"
edition = "2021"
publish = false

[dependencies]
anyhow = "=1.0.104"
regex = "=1.13.1"
serde = { version = "=1.0.229", features = ["derive"] }
serde_json = "=1.0.154"
uuid = { version = "=1.29.0", features = ["v4"] }
chrono = "=0.4.45"
tokio = { version = "=1.54.1", features = ["full"] }
tracing = "=0.1.44"
strsim = "=0.11.1"
sha2 = "=0.10.9"
data-encoding = "=2.11.1"
lru = "=0.12.5"
async-trait = "=0.1.92"
futures = "=0.3.34"
reqwest = { version = "=0.12.28", default-features = false, features = ["json", "stream", "multipart"] }
base64 = "=0.22.1"
tiktoken-rs = "*"
