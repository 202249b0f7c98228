[package]
name = "telemetry_bridge"
version = "0.1.0"
edition = "2021"
publish = false

[dependencies]
base64 = "*"
chrono = "*"
rand = "*"
serde = { version = "*", features = ["derive"] }
serde_json = "*"
tokio = { version = "*", features = ["full"] }
uuid = { version = "*", features = ["v7"] }
wandb = "=0.18.7-alpha.1"
