[package]
name = "kline_trader"
version = "0.1.0"
edition = "2021"
publish = false

[dependencies]
chrono = { version = "=0.4.45", features = ["serde"] }
dotenv = "=0.15.0"
hex = "=0.4.3"
hmac = "=0.12.1"
lazy_static = "=1.5.1"
reqwest = { version = "=0.11.27", features = ["json"] }
serde = { version = "=1.0.229", features = ["derive"] }
serde_json = { version = "=1.0.154", features = ["arbitrary_precision"] }
sha2 = "=0.10.9"
tokio = { version = "=1.54.1", features = ["full"] }
