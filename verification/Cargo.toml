[package]
name = "iron_spider"
version = "0.1.0"
edition = "2021"
publish = false

[dependencies]
async-trait = "=0.1.92"
crossbeam = "=0.8.5"
crossterm = "=0.29.0"
dashmap = "=6.2.1"
governor = "=0.10.4"
ratatui = "=0.30.2"
rayon = "=1.12.0"
reqwest = { version = "=0.12.28", default-features = false }
tokio = { version = "=1.54.1", features = ["rt-multi-thread", "time", "sync", "macros"] }
tracing = "=0.1.44"
tracing-subscriber = "=0.3.23"
tui-logger = { version = "=0.18.3", features = ["tracing-support", "crossterm"] }
