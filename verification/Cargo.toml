[package]
name = "agent_reviewer"
version = "0.1.0"
edition = "2021"
publish = false

[dependencies]
genai = { version = "=0.7.2", features = ["bedrock-sigv4"] }
serde = { version = "=1.0.229", features = ["derive"] }
serde_json = "=1.0.154"
thiserror = "=2.0.21"
anyhow = "=1.0.104"
tracing = "=0.1.44"
