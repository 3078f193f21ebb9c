[package]
name = "ticker_stats"
version = "0.1.0"
edition = "2021"
publish = false

[dependencies]
chrono = "*"
clap = { version = "*", features = ["cargo"] }
env_logger = "*"
log = "*"
yahoo_finance_api = "*"
actix = "*"
actix-rt = "*"
