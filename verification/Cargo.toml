[package]
name = "packet_inspector"
version = "0.1.0"
edition = "2021"
publish = false

[dependencies]
pcap = "*"

[dev-dependencies]
regex = "*"
