[package]
name = "ipecho"
version = "0.1.0"
edition = "2021"
publish = false

[dependencies]
tokio = { version = "1", features = ["rt-multi-thread", "net", "io-util", "macros"] }
reqwest = { version = "0.12", default-features = false }
clap = { version = "4", features = ["derive"] }
chrono = "0.4"
