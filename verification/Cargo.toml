[package]
name = "nfs4_server"
version = "0.1.0"
edition = "2021"
publish = false

[dependencies]
anyhow = "1"
getrandom = "0.3"
tokio = { version = "1", features = ["rt", "sync", "time", "macros", "net", "io-util"] }
tracing = "0.1"
