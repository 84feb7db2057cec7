[package]
name = "binder_trace"
version = "0.1.0"
edition = "2021"
publish = false

[dependencies]
anstyle = "=1.0.14"
clap = { version = "=4.6.7", features = ["derive"] }
crossterm = "=0.29.0"
libc = "=0.2.191"
memmap2 = "=0.9.12"
serde = { version = "=1.0.229", features = ["derive"] }
serde_json = "=1.0.154"
tokio = { version = "1", features = ["rt", "rt-multi-thread", "macros", "net", "time", "sync", "io-util"] }
axum = "0.8"
rmcp = { version = "*", features = ["server", "macros", "transport-streamable-http-server"] }
csv = "1"
