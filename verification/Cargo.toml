[package]
name = "shortland"
version = "0.1.0"
edition = "2021"
publish = false

[dependencies]
harsh = "=0.2.2"
chrono = "=0.4.45"
uuid = { version = "=1.27.0", features = ["v4"] }
anyhow = "=1.0.104"
axum = "=0.8.9"
config = "=0.15.27"
serde = { version = "=1.0.229", features = ["derive"] }
thiserror = "=2.0.21"
tokio = { version = "=1.53.2", features = ["rt-multi-thread", "macros", "net", "sync"] }
tower = "=0.5.3"
tower-http = { version = "=0.7.1", features = ["trace"] }
tracing = "=0.1.44"
tracing-subscriber = "=0.3.23"
