[package]
name = "spot"
version = "0.1.0"
edition = "2021"
publish = false

[dependencies]
serde_json = "=1.0.151"
serde = { version = "=1.0.229", features = ["derive"] }
axum = "=0.8.9"
tokio = { version = "=1.53.2", features = ["rt-multi-thread", "macros", "sync", "net", "io-util", "fs", "signal", "time"] }
reqwest = { version = "=0.13.5", default-features = false }
clap = { version = "=4.6.7", features = ["derive", "env"] }
tower-http = { version = "=0.7.1", features = ["cors"] }
tracing = "=0.1.44"
tracing-subscriber = { version = "=0.3.23", features = ["env-filter"] }
once_cell = "=1.21.4"
futures-util = { version = "=0.3.34", features = ["io"] }
async-sse = "=5.1.0"
