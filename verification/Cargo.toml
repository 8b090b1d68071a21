[package]
name = "bahntafel"
version = "0.1.0"
edition = "2021"
publish = false

[dependencies]
scraper = "=0.27.0"
chrono = "=0.4.45"
reqwest = { version = "=0.13.5", default-features = false, features = ["query"] }
thiserror = "=2.0.21"
