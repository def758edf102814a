[package]
name = "longhorn_agent"
version = "0.1.0"
edition = "2021"
publish = false

[dependencies]
axum = "*"
base64 = "*"
getrandom = "*"
reqwest = { version = "*", default-features = false }
rmcp = "*"
secrecy = "*"
serde = { version = "*", features = ["derive"] }
serde_json = "*"
sysinfo = "*"
tokio = { version = "*", features = ["full"] }
