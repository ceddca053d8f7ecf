[package]
name = "rat_quickdb"
version = "0.1.0"
edition = "2021"
publish = false

[dependencies]
serde_json = "=1.0.154"
chrono = "=0.4.45"
uuid = "=1.29.0"
base64 = "=0.21.7"
async-trait = "=0.1.92"
tokio = { version = "=1.54.1", features = ["sync"] }
regex = "=1.13.1"
