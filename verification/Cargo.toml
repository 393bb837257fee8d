[package]
name = "boundless"
version = "0.1.0"
edition = "2021"
publish = false

[dependencies]
uuid = { version = "=1.29.0", features = ["v4", "serde"] }
serde = { version = "=1.0.229", features = ["derive"] }
serde_json = "=1.0.154"
anyhow = "=1.0.104"
image = { version = "=0.25.10", default-features = false }
kurbo = "=0.11.3"
euclid = "=0.22.14"
roughr = "=0.14.0"
rough_piet = "=0.15.0"
rfd = "=0.15.4"
