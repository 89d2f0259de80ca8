[package]
name = "nod"
version = "0.1.0"
edition = "2021"
publish = false

[dependencies]
anyhow = "1"
async-trait = "0.1"
clap = { version = "4", features = ["derive"] }
colored = "2"
crossterm = "0.28"
hostname = "0.4"
indicatif = "0.17"
ratatui = "0.28"
serde = { version = "1", features = ["derive"] }
serde_json = "1"
thiserror = "1"
tokio = { version = "1", features = ["process", "net", "time", "macros", "rt-multi-thread", "io-util"] }
toml = "0.8"
tracing = "0.1"
