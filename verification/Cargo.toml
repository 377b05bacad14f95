[package]
name = "rreader"
version = "0.1.0"
edition = "2021"
publish = false

[dependencies]
anyhow = "=1.0.104"
crossbeam-channel = "=0.5.17"
dirs = "=7.0.0"
env_logger = "*"
image = { version = "=0.25.10", default-features = false, features = ["png"] }
log = "=0.4.34"
mupdf = "=0.8.0"
regex = "=1.13.1"
serde = { version = "1", features = ["derive"] }
serde_json = "1"
