[package]
name = "matcha"
version = "0.1.0"
edition = "2021"
publish = false

[dependencies]
alacritty_terminal = "=0.25.1"
anyhow = "1"
atomicwrites = "0.4"
crossbeam-channel = "0.5"
directories = "6"
parking_lot = "0.12"
portable-pty = "0.9"
regex = "1"
serde = { version = "1", features = ["derive"] }
serde_json = "1"
sys-locale = "0.3"
thiserror = "2"
toml = "0.9"
tracing = "0.1"
uuid = { version = "1", features = ["v4"] }
