[package]
name = "relay_core"
version = "0.1.0"
edition = "2021"
publish = false

[dependencies]
serde = { version = "=1.0.229", features = ["derive"] }
serde_json = "=1.0.154"
http = "=1.5.0"
url = "2"
bytes = "1"
flate2 = "1"
tokio = { version = "1", features = ["rt-multi-thread", "macros", "net", "time", "sync", "io-util"] }
tokio-util = "0.7"
tokio-stream = "0.1"
futures-util = "0.3"
hyper = { version = "1", features = ["client", "server", "http1"] }
hyper-util = { version = "0.1", features = ["tokio", "client-legacy", "http1"] }
http-body-util = "0.1"
axum = "0.8"
tower = { version = "0.5", features = ["util"] }
arc-swap = "1"
async-trait = "0.1"
