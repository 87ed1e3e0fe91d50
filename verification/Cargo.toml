[package]
name = "psy"
version = "0.1.0"
edition = "2021"
publish = false

[dependencies]
base64 = "0.22"
sha2 = "0.10"
serde = { version = "1", features = ["derive"] }
serde_json = "1"
once_cell = "1"
uuid = { version = "1", features = ["v4"] }
tokio = { version = "1", features = ["full"] }
futures = "0.3"
futures-util = { version = "0.3", features = ["sink"] }
reqwest = { version = "0.12", default-features = false, features = ["blocking", "rustls-tls"] }
axum = "0.8"
tower-http = { version = "0.6", features = ["cors"] }
tokio-tungstenite = "0.26"
sysinfo = "0.33"
tower-lsp = "0.20"
