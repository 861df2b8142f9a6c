[package]
name = "stock_stats"
version = "0.1.0"
edition = "2021"
publish = false

[dependencies]
chrono = "=0.4.45"
clap = "=2.34.0"
time = "0.3"
yahoo_finance_api = { version = "=5.0.0", features = ["blocking"] }
