[package]
name = "tagstream"
version = "0.1.0"
edition = "2021"
publish = false

[dependencies]
rmp = "=0.8.15"
rfid-rs = "=0.1.3"
spidev = "0.4"
serde = { version = "=1.0.229", features = ["derive"] }
serde_json = "=1.0.154"
