[package]
name = "ftx_ws"
version = "0.1.0"
edition = "2021"
publish = false

[dependencies]
futures-util = "0.3"
hex = "0.4"
hmac-sha256 = "1"
serde = { version = "1", features = ["derive"] }
serde_json = "1"
tokio = { version = "1", features = ["macros", "net", "time"] }
tokio-tungstenite = { version = "0.15", features = ["native-tls"] }
