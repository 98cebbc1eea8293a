[package]
name = "mooshie_core"
version = "0.1.0"
edition = "2021"
publish = false

[dependencies]
sha2 = "=0.10.9"
url = "=2.5.8"
base64 = "=0.22.1"
serde = { version = "=1.0.229", features = ["derive"] }
serde_json = "=1.0.154"
tokio = { version = "=1.54.1", features = ["macros", "rt-multi-thread", "net", "signal", "time", "process", "fs"] }
axum = "=0.8.9"
tower-http = { version = "=0.6.11", features = ["cors"] }
reqwest = { version = "=0.12.28", default-features = false, features = ["json", "rustls-tls"] }
tokio-tungstenite = "*"
futures-util = "*"
sysinfo = "*"
