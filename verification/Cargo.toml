[package]
name = "ollama_testing"
version = "0.1.0"
edition = "2021"
publish = false

[dependencies]
anyhow = "*"
arboard = "*"
chrono = "*"
crossterm = "*"
dirs = "*"
ollama-rs = { version = "*", features = ["stream"] }
ratatui = "*"
sysinfo = "*"
tokio = { version = "*", features = ["full"] }
tokio-stream = "*"
