[package]
name = "docx_adapter"
version = "0.1.0"
edition = "2021"
publish = false

[dependencies]
docx-rs = "=0.4.22"
image = { version = "=0.25.10", default-features = false, features = ["png"] }
bytes = "=1.12.1"
anyhow = "=1.0.104"
log = "=0.4.34"
env_logger = "=0.11.11"
clap = "=4.6.7"
tokio = { version = "=1.54.1", features = ["macros", "rt-multi-thread", "net"] }
axum = { version = "=0.7.9", features = ["multipart"] }
tower-http = { version = "=0.5.2", features = ["limit"] }
