[package]
name = "know"
version = "0.1.0"
edition = "2021"
publish = false

[dependencies]
anyhow = "*"
async-trait = "*"
axum = "*"
clap = { version = "*", features = ["derive", "env"] }
glob = "*"
indicatif = "*"
reqwest = { version = "*", default-features = false, features = ["json", "multipart"] }
serde = { version = "*", features = ["derive"] }
serde_json = "*"
text-splitter = { version = "*", default-features = false }
tokio = { version = "*", features = ["full"] }
tower-http = { version = "*", features = ["cors"] }
uuid = { version = "*", features = ["v4", "v5"] }
