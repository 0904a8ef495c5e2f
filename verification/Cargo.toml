[package]
name = "doks"
version = "0.1.0"
edition = "2021"
publish = false

[dependencies]
anyhow = "=1.0.104"
async-trait = "=0.1.92"
async-walkdir = "=2.2.0"
env_logger = "=0.11.11"
futures = "=0.3.34"
git2 = "=0.21.0"
log = "=0.4.34"
octocrab = "=0.47.1"
regex = "=1.13.1"
serde = { version = "=1.0.229", features = ["derive"] }
serde_json = "=1.0.154"
structopt = "=0.3.26"
tantivy = "=0.27.0"
tempdir = "=0.3.7"
tokio = { version = "=1.54.1", features = ["full"] }
tokio-stream = "=0.1.19"
