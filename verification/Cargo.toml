[package]
name = "bert"
version = "0.1.0"
edition = "2021"
publish = false

[dependencies]
libloading = "*"
pastey = "*"
ratatui = "*"
thiserror = "*"
tracing = "*"
tracing-subscriber = "*"
tui-logger = { version = "*", features = ["tracing-support"] }
