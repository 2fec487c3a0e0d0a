[package]
name = "signal_ledger"
version = "0.1.0"
edition = "2021"
publish = false

[dependencies]
barter-data = "=0.7.1"
barter-integration = "=0.7.1"
chrono = "=0.4.45"
serde_json = "=1.0.154"
tokio = { version = "=1.54.1", features = ["macros", "rt-multi-thread"] }
tracing = "=0.1.44"
tracing-subscriber = { version = "=0.3.23", features = ["env-filter"] }
