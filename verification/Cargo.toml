[package]
name = "cron_tab"
version = "0.1.0"
edition = "2021"
publish = false

[dependencies]
chrono = "0.4"
cron = "*"
crossbeam-channel = "0.5"
futures = "0.3"
thiserror = "*"
tokio = { version = "1", features = ["rt-multi-thread", "macros", "sync", "time"] }
