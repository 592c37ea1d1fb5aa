[package]
name = "fabro_workflow"
version = "0.1.0"
edition = "2021"
publish = false

[dependencies]
anyhow = "1"
async-trait = "0.1"
futures = "0.3"
jsonschema = { version = "*", default-features = false }
serde = { version = "1", features = ["derive"] }
serde_json = "1"
tempfile = "3"
tokio = { version = "1", features = ["rt", "sync", "time", "macros", "fs"] }
tokio-util = "0.7"
tracing = "0.1"
ulid = "1"
uuid = { version = "1", features = ["v4"] }
