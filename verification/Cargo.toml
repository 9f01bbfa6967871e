[package]
name = "remyx"
version = "0.1.0"
edition = "2021"
publish = false

[dependencies]
futures = "=0.3.34"
ratatui-core = "=0.1.2"
ratatui-crossterm = "=0.1.2"
crossterm = { version = "=0.29.0", features = ["event-stream"] }
tokio = { version = "=1.54.1", features = ["rt", "rt-multi-thread", "sync", "time", "net", "io-util", "macros"] }
