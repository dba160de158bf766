[package]
name = "arrow_ctl"
version = "0.1.0"
edition = "2021"
publish = false

[dependencies]
uuid = { version = "=1.27.0", features = ["v4"] }
tokio = { version = "=1.53.2", features = ["rt-multi-thread", "sync", "macros", "signal", "time"] }
warp = { version = "=0.4.3", features = ["server", "websocket"] }
sqlx = { version = "=0.8.6", default-features = false, features = ["runtime-tokio-rustls", "postgres"] }
futures = "=0.3.34"
tokio-stream = "=0.1.19"
clap = "=4.6.7"
signal-hook = "=0.4.5"
signal-hook-tokio = { version = "=0.4.0", features = ["futures-v0_3"] }
