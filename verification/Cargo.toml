[package]
name = "system-monitor"
version = "1.1.0"
edition = "2021"
publish = false

[dependencies]
anyhow = "1"
chrono = "0.4"
clap = { version = "4", features = ["derive"] }
crossterm = "0.28"
dirs = "5"
nvml-wrapper = "0.10"
ratatui = "0.29"
serde = { version = "1", features = ["derive"] }
sysinfo = "0.32"
thiserror = "1"
toml = "0.8"
