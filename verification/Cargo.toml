[package]
name = "calc_mcp"
version = "0.1.0"
edition = "2021"
publish = false

[dependencies]
anyhow = "=1.0.104"
rmcp = { version = "=0.1.5", features = ["transport-io"] }
schemars = "=0.8.22"
serde = { version = "=1.0.229", features = ["derive"] }
tokio = { version = "=1.53.2", features = ["macros", "rt-multi-thread"] }
