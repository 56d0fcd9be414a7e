[package]
name = "voice_core"
version = "0.1.0"
edition = "2021"
publish = false

[dependencies]
urlencoding = "*"
anyhow = "*"
cpal = "*"
env_logger = "*"
log = "*"
rodio = "*"
rustpotter = "*"
serde = { version = "*", features = ["derive"] }
serde_json = "*"
thiserror = "*"
toml = "*"
whisper-rs = "*"

[dependencies.reqwest]
version = "*"
default-features = false
features = ["blocking", "json"]
