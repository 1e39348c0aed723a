[package]
name = "ragents"
version = "0.1.0"
edition = "2021"
publish = false

[dependencies]
serde_json = "=1.0.154"
fancy-regex = "=0.19.2"
async-openai = "=0.27.2"
tokio = { version = "=1.54.1", features = ["rt-multi-thread", "macros", "sync", "signal", "time"] }
futures = "=0.3.34"
anyhow = "=1.0.104"
clap = { version = "=4.6.7", features = ["derive"] }
serde = { version = "=1.0.229", features = ["derive"] }
serde_yaml = "=0.9.34"
reedline = "=0.52.1"
parking_lot = "=0.12.5"
log = "=0.4.34"
chrono = "=0.4.45"
dirs = "=7.0.0"
nu-ansi-term = "=0.50.3"
inquire = "=0.9.4"
actix-web = { version = "=4.18.1", default-features = false, features = ["macros"] }
