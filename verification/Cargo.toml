[package]
name = "consumer"
version = "0.1.0"
edition = "2021"
publish = false

[dependencies]
anyhow = "1"
async-nats = "0.33"
bincode = "1"
chrono = "0.4"
clap = { version = "4", features = ["derive"] }
futures = "0.3"
influxdb = { version = "0.7", features = ["derive"] }
serde = { version = "1", features = ["derive"] }
tokio = { version = "1", features = ["full"] }
