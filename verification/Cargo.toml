[package]
name = "imsg_session"
version = "0.1.0"
edition = "2021"
publish = false

[dependencies]
serde_json = "1"
base64 = "0.22"
linkify = "0.10"
clap = { version = "4", features = ["derive"] }
notify-rust = "4"
