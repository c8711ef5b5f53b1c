[package]
name = "tacit"
version = "0.1.0"
edition = "2021"
publish = false

[dependencies]
chrono = "0.4"
log = { version = "0.4", features = ["kv"] }
parking_lot = "0.12"
serde_json = "1"
