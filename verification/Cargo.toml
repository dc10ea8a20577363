[package]
name = "codex_app"
version = "0.1.0"
edition = "2021"
publish = false

[dependencies]
anyhow = "1"
json-patch = "*"
rmcp = { version = "*", features = ["server", "macros", "transport-io"] }
rustix = { version = "*", features = ["process"] }
serde = { version = "1", features = ["derive"] }
serde_json = "1"
sha2 = "*"
tokio = { version = "1", features = ["full"] }
tracing = "0.1"
tracing-subscriber = { version = "0.3", features = ["env-filter"] }
uuid = { version = "1", features = ["v4"] }
