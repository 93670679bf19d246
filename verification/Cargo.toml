[package]
name = "claude_session"
version = "0.1.0"
edition = "2021"
publish = false

[dependencies]
agent-client-protocol = { version = "=0.12.1", features = ["unstable"] }
anyhow = "=1.0.104"
portable-pty = "=0.9.0"
serde_json = "=1.0.154"
tokio = { version = "=1.54.1", features = ["sync", "time"] }
uuid = { version = "=1.29.0", features = ["v4"] }
