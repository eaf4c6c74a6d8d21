[package]
name = "herron_island"
version = "0.1.0"
edition = "2021"
publish = false

[dependencies]
serde_json = "1"
chrono = "0.4"
rand = "0.8"
