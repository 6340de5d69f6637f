[package]
name = "spoticry"
version = "0.1.0"
edition = "2021"
publish = false

[dependencies]
base64 = "0.22"
chrono = { version = "0.4", features = ["serde"] }
futures-util = "0.3"
im = { version = "15", features = ["serde"] }
serde = { version = "1", features = ["derive"] }
serde_json = "1"
symphonia = { version = "0.5", features = ["mp3"] }
tokio = { version = "1", features = ["full"] }
tokio-tungstenite = "*"
uuid = { version = "1", features = ["v4"] }
