[package]
name = "ferrix"
version = "0.1.0"
edition = "2021"
publish = false

[dependencies]
anyhow = "=1.0.104"
async-openai = { version = "0.36", features = ["responses"] }
futures-util = "0.3"
jsonschema = { version = "0.46", default-features = false }
rmcp = { version = "1.6", default-features = false, features = ["client", "transport-child-process"] }
schemars = "=1.2.3"
serde = { version = "1", features = ["derive"] }
serde_json = "=1.0.154"
tokio = { version = "1", features = ["macros", "rt-multi-thread", "process", "io-util"] }
tracing = "0.1"
tracing-subscriber = { version = "0.3", features = ["env-filter"] }
uuid = { version = "=1.29.0", features = ["v4"] }
