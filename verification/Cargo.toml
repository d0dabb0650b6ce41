[package]
name = "danmaku_machine"
version = "0.1.0"
edition = "2021"
publish = false

[dependencies]
libflate = "=1.4.0"
serde_json = "=1.0.154"
serde = { version = "1", features = ["derive"] }
anyhow = "1"
async-std = "=1.13.2"
async-tungstenite = { version = "=0.35.0", features = ["async-std-runtime", "async-tls"] }
futures = "=0.3.34"
log = "0.4"
once_cell = "1"
font-kit = "=0.10.1"
iced = "=0.3.0"
iced_futures = "=0.3.0"
