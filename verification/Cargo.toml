[package]
name = "tokstat"
version = "0.1.0"
edition = "2021"
publish = false

[dependencies]
anyhow = "*"
async-trait = "*"
atty = "*"
chrono = "=0.4.45"
clap = { version = "*", features = ["derive"] }
clap_complete = "*"
colored = "*"
crossterm = "=0.29.0"
keyring = "=4.2.0"
ratatui = "=0.30.2"
reqwest = { version = "=0.13.5", default-features = false, features = ["json", "form"] }
serde = { version = "*", features = ["derive"] }
serde_json = "*"
tokio = { version = "*", features = ["rt", "rt-multi-thread", "macros", "time"] }
tracing = "*"
tracing-subscriber = { version = "*", features = ["env-filter", "fmt"] }
