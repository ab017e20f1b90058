[package]
name = "minisftp"
version = "0.1.0"
edition = "2021"
publish = false

[dependencies]
chrono = "0.4"
russh = "0.45"
russh-sftp = "2"
tokio = { version = "1", features = ["macros", "rt-multi-thread", "fs", "io-util", "signal", "time", "net"] }
tokio-util = "0.7"
async-trait = "0.1"
tracing = "0.1"
tracing-subscriber = { version = "0.3", features = ["env-filter", "fmt"] }
