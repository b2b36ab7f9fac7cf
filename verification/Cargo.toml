[package]
name = "pingy"
version = "0.1.0"
edition = "2021"
publish = false

[dependencies]
clap = { version = "4", features = ["derive"] }
ratatui = "0.29"
tokio = { version = "1", features = ["rt-multi-thread", "macros", "time", "net", "sync"] }
