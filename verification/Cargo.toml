[package]
name = "phantom-rs"
version = "0.1.0"
edition = "2021"
publish = false

[dependencies]
bytes = "1"
clap = { version = "4", features = ["derive"] }
ctrlc = "3"
env_logger = "0.11"
futures-util = "0.3"
hex = "0.4"
log = "0.4"
rand = "0.10"
socket2 = "0.6"
tokio = { version = "1", features = ["full"] }
tokio-raknet = "0.2"
tokio-tungstenite = "0.29"
