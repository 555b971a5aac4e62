[package]
name = "diaryx_plugin_sdk"
version = "0.1.0"
edition = "2021"
publish = false

[dependencies]
base64 = "0.22"
serde = { version = "1", features = ["derive"] }
serde_json = "1"
extism-pdk = "1"
getrandom = "0.3"
