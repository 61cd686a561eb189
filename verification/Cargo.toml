[package]
name = "netsniffer"
version = "0.1.0"
edition = "2021"
publish = false

[dependencies]
pnet = "0.35"
pcap = "2"
serde = { version = "1", features = ["derive"] }
serde_json = "1"
tokio = { version = "1", features = ["sync", "rt", "rt-multi-thread", "time"] }
once_cell = "1"
