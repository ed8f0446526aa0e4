[package]
name = "shell_repl"
version = "0.1.0"
edition = "2021"
publish = false

[dependencies]
crossterm = "*"
tracing = "0.1"
tracing-subscriber = { version = "0.3", features = ["env-filter"] }
