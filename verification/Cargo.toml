[package]
name = "anna_client"
version = "0.1.0"
edition = "2021"
publish = false

[dependencies]
rand = "0.8"
uuid = { version = "1", features = ["v4"] }
chrono = { version = "0.4", default-features = false, features = ["clock"] }
tokio = { version = "1", features = ["net", "rt", "rt-multi-thread", "sync", "io-util", "macros", "time"] }
serde = { version = "1", features = ["derive"] }
eyre = "0.6"
