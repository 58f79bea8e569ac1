[package]
name = "mcp_run"
version = "0.1.0"
edition = "2021"
publish = false

[dependencies]
base64 = "=0.22.1"
regex = "=1.11.3"
regorus = "=0.9.1"
sha2 = "=0.10.9"
serde = { version = "1", features = ["derive"] }
serde_json = "1"
tokio = { version = "1", features = ["full"] }
axum = "=0.8.4"
futures-util = "0.3"
tokio-stream = "0.1"
reqwest = { version = "=0.12.15", default-features = false, features = ["json", "stream"] }
rmcp = { version = "=3.5.1", features = ["server", "transport-streamable-http-server"] }
schemars = "*"
notify = "=8.0.0"
