[package]
name = "project_agents"
version = "0.1.0"
edition = "2021"
publish = false

[dependencies]
serde = { version = "=1.0.229", features = ["derive"] }
serde_json = "=1.0.154"
toml = "=0.8.23"
textwrap = "=0.16.4"
uuid = { version = "=1.29.0", features = ["v5", "v7"] }
