[package]
name = "ledger_sync"
version = "0.1.0"
edition = "2021"
publish = false

[dependencies]
chrono = "0.4"
reqwest = { version = "0.12", default-features = false }
rev_lines = "*"
tokio = { version = "1", features = ["macros", "rt-multi-thread"] }
