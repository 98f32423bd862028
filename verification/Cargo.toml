[package]
name = "parts"
version = "0.1.0"
edition = "2021"
publish = false

[dependencies]
anyhow = "=1.0.104"
byte-unit = "=4.0.19"
cursive = "=0.21.1"
gptman = "=3.1.1"
linapi = "=0.5.3"
serde = { version = "=1.0.229", features = ["derive"] }
serde_json = "=1.0.154"
structopt = "=0.3.26"
tracing = "=0.1.44"
tracing-subscriber = "=0.3.23"
uuid = { version = "=1.29.0", features = ["v4", "serde"] }
