[package]
name = "hc_rtc_demo"
version = "0.1.0"
edition = "2021"
publish = false

[dependencies]
dirs = "=4.0.0"
lair_keystore_api = "=0.2.4"
parking_lot = "=0.12.5"
rand = "=0.9.5"
rand-utf8 = "=0.0.2"
serde = { version = "=1.0.229", features = ["derive"] }
serde_json = "=1.0.154"
sodoken = "=0.0.9"
tokio = { version = "=1.54.1", features = ["full"] }
tracing = "=0.1.44"
url = { version = "=2.5.8", features = ["serde"] }
