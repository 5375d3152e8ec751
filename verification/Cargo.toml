[package]
name = "trade_client"
version = "0.1.0"
edition = "2021"
publish = false

[dependencies]
anyhow = "=1.0.104"
dotenv = "=0.15.0"
isahc = { version = "=1.8.3", features = ["json"] }
ron = "=0.8.1"
serde = { version = "=1.0.229", features = ["derive"] }
