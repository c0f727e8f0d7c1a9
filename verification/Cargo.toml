[package]
name = "loco"
version = "0.1.0"
edition = "2021"
publish = false

[dependencies]
serde = { version = "=1.0.229", features = ["derive"] }
serde_json = "=1.0.154"
thiserror = "=2.0.21"
anyhow = "=1.0.104"
clap = { version = "=4.6.7", features = ["derive", "env"] }
dirs = "=6.0.0"
ort = "2.0.0-rc.10"
tokenizers = "*"
hf-hub = { version = "*", default-features = false, features = ["ureq"] }
litertlm-rs = "*"

[dev-dependencies]
tempfile = "=3.27.0"
