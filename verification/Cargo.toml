[package]
name = "doorctl"
version = "0.1.0"
edition = "2021"
publish = false

[dependencies]
sha1 = "=0.11.0"
base64ct = "=1.8.3"
serde = { version = "*", features = ["derive"] }
serde-json-core = "=0.6.0"
heapless = "*"
embassy-sync = "=0.8.0"
embassy-futures = "=0.1.2"
embassy-time = "=0.5.1"
embedded-io-async = "=0.7.0"
embedded-storage = "=0.3.2"
embedded-hal = "=1.0.0"
embedded-hal-async = "=1.0.0"
rust-mqtt = "=0.5.1"

[dev-dependencies]
hex = "*"
