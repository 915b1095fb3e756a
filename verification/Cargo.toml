[package]
name = "ma_proxy_engine"
version = "0.1.0"
edition = "2021"
publish = false

[dependencies]
md5 = "0.7"
bitvec = "1"
anyhow = "1"
async-trait = "0.1"
axum = "0.8"
bytes = "1"
parking_lot = "0.12"
reqwest = { version = "0.12", default-features = false }
serde = { version = "1", features = ["derive"] }
tokio = { version = "1", features = ["rt-multi-thread", "net", "time", "sync", "macros"] }
tokio-util = "0.7"
