[package]
name = "oxidite"
version = "0.1.0"
edition = "2021"
publish = false

[dependencies]
async-trait = "0.1"
bytes = "1"
chrono = "0.4"
cron = "*"
http = "1"
http-body-util = "0.1"
serde = { version = "1", features = ["derive"] }
serde_json = "1"
serde_urlencoded = "0.7"
tokio = { version = "1", features = ["macros", "rt", "rt-multi-thread", "sync", "time"] }
uuid = { version = "1", features = ["v4"] }
