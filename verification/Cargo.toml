[package]
name = "just-proxy-lib"
version = "0.1.0"
edition = "2021"
publish = false

[dependencies]
ring = "=0.17.14"
serde = { version = "=1.0.229", features = ["derive"] }
serde_json = "=1.0.154"
structopt = "=0.3.26"
slog = "=2.8.2"
slog-term = "=2.9.2"
slog-async = "=2.8.0"
daemonize = "=0.4.1"
