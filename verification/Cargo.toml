[package]
name = "zhazba"
version = "0.1.0"
edition = "2021"
publish = false

[dependencies]
ropey = "1"
crossterm = { version = "0.28", features = ["event-stream"] }
ratatui = "0.29"
mlua = { version = "0.10", features = ["lua54", "vendored", "send"] }
parking_lot = { version = "0.12", features = ["arc_lock"] }
anyhow = "1"
clap = { version = "4", features = ["derive"] }
tokio = { version = "1", features = ["rt", "macros", "sync"] }
futures = "0.3"
futures-timer = "3"
once_cell = "1"
tracing = "0.1"
tracing-appender = "0.2"
tracing-subscriber = { version = "0.3", features = ["env-filter"] }
tracing-error = "0.2"
