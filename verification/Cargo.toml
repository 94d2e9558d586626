[package]
name = "streamapp"
version = "0.1.0"
edition = "2021"
publish = false

[dependencies]
tokio = { version = "*", features = ["rt-multi-thread", "net", "io-util", "macros", "sync", "time"] }
clap = { version = "*", features = ["derive"] }

[dev-dependencies]
hound = "*"
