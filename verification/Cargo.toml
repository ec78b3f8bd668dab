[package]
name = "efbench-core"
version = "0.1.0"
edition = "2021"
publish = false

[dependencies]
anyhow = "1"
async-stream = "0.3"
clap = { version = "4", features = ["derive"] }
crossterm = "0.28"
plotters = "0.3"
prost = "0.13"
ratatui = "0.29"
tokio = { version = "1", features = ["full"] }
tokio-stream = "0.1"
tonic = "0.12"
