[package]
name = "semantic_retrieval"
version = "0.1.0"
edition = "2021"
publish = false

[dependencies]
uuid = { version = "=1.29.0", features = ["v4"] }
nanoid = "=0.4.0"
chrono = "=0.4.45"
quick-xml = "=0.42.0"
html-escape = "=0.2.15"
serde_json = "=1.0.154"
serde = { version = "=1.0.229", features = ["derive"] }
tokio = { version = "1", features = ["rt-multi-thread", "macros", "net"] }
reqwest = { version = "0.12", features = ["json"] }
anyhow = "1"
thiserror = "1"
dotenv = "0.15"
futures = "0.3"
tera = "1"
rig-core = "0.15"
qdrant-client = "=1.20.0"
