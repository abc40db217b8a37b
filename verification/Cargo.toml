[package]
name = "ssherald"
version = "0.1.0"
edition = "2021"
publish = false

[dependencies]
russh = "*"
russh-sftp = "*"
tokio = { version = "*", features = ["rt", "rt-multi-thread", "net", "time", "io-util", "fs", "sync", "macros"] }
serde = { version = "*", features = ["derive"] }
serde_json = "*"
dirs = "*"
