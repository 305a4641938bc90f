[package]
name = "wardian_state"
version = "0.1.0"
edition = "2021"
publish = false

[dependencies]
sha2 = "=0.10.9"
chrono = { version = "=0.4.45", default-features = false, features = ["clock", "std"] }
uuid = { version = "=1.29.0", features = ["v4"] }
serde = { version = "=1.0.229", features = ["derive"] }
serde_json = "=1.0.154"
tokio = { version = "=1.54.1", features = ["net", "time", "rt", "macros", "process", "io-util"] }
futures-util = "=0.3.34"
fs2 = "0.4"
base64 = "0.22"
tokio-tungstenite = "*"
