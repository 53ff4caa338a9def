[package]
name = "peregrine"
version = "0.1.0"
edition = "2021"
publish = false

[dependencies]
anyhow = "=1.0.104"
async-trait = "=0.1.92"
base64 = "=0.22.1"
bytes = "=1.12.1"
clap = { version = "=4.6.7", features = ["derive"] }
http = "=1.5.0"
indexmap = { version = "=2.14.2", features = ["serde"] }
pingora-core = { version = "=0.9.1", default-features = false }
pingora-http = { version = "=0.9.1", default-features = false }
pingora-proxy = { version = "=0.9.1", default-features = false }
serde = { version = "=1.0.229", features = ["derive"] }
serde_yaml = "=0.9.34"
tokio = { version = "=1.54.1", features = ["fs"] }
tracing = "=0.1.44"
tracing-subscriber = { version = "=0.3.23", features = ["env-filter", "json"] }
url = "=2.5.8"
