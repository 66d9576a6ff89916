[package]
name = "agent_tools"
version = "0.1.0"
edition = "2021"
publish = false

[dependencies]
async-trait = "0.1"
futures = "0.3"
headless_chrome = "1"
html2text = "=0.17.4"
reqwest = { version = "=0.12.28", default-features = false, features = ["charset", "http2", "rustls-tls"] }
serde_json = { version = "=1.0.154", features = ["float_roundtrip"] }
tokio = { version = "1", features = ["macros", "rt", "sync", "time"] }
tokio-util = "0.7"
tracing = "0.1"
