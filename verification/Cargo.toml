[package]
name = "broadcast_daw_studio"
version = "0.1.0"
edition = "2021"
publish = false

[dependencies]
petgraph = "=0.6.5"
uuid = { version = "=1.29.0", features = ["v4", "serde"] }
serde = { version = "=1.0.229", features = ["derive"] }
serde_json = "=1.0.154"
anyhow = "=1.0.104"
parking_lot = "=0.12.5"
crossbeam-channel = "=0.5.17"
ringbuf = "=0.3.3"
socket2 = "=0.5.10"
libloading = "=0.8.9"
