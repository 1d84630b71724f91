[package]
name = "iroh_gateway"
version = "0.1.0"
edition = "2021"
publish = false

[dependencies]
axum = { version = "=0.8.9", default-features = false, features = ["tokio", "http1"] }
clap = { version = "=4.6.7", default-features = false, features = ["std", "derive", "env", "help", "usage", "error-context"] }
dotenv = "=0.15.0"
http-body-util = "=0.1.5"
hyper = "=1.12.0"
iroh = "=1.4.1"
iroh-base = "=1.4.1"
iroh-metrics = "=1.0.2"
iroh-proxy-utils = "=0.3.0"
iroh-relay = "=1.4.1"
n0-error = "=1.0.1"
rand = "=0.10.3"
reqwest = { version = "=0.13.5", default-features = false, features = ["rustls", "http2"] }
serde = { version = "=1.0.229", features = ["derive"] }
serde_yml = "=0.0.13"
tokio = { version = "=1.54.1", features = ["rt-multi-thread", "macros", "net", "signal", "fs", "time", "sync"] }
tracing = "=0.1.44"
tracing-subscriber = "=0.3.23"
