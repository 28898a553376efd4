[package]
name = "road_traffic"
version = "0.1.0"
edition = "2021"
publish = false

[dependencies]
actix-cors = "=0.7.2"
actix-web = "=4.18.1"
actix-web-static-files = "=4.1.1"
chrono = { version = "=0.4.45", features = ["serde"] }
ctrlc = "=3.5.2"
mot-rs = "=0.6.0"
opencv = "=0.101.1"
redis = "=1.8.0"
serde = { version = "=1.0.229", features = ["derive"] }
serde_json = "=1.0.154"
toml = "=1.1.8"
utoipa = "=6.0.0"
uuid = { version = "=1.29.0", features = ["v4", "serde"] }
