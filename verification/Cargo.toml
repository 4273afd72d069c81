[package]
name = "demuxusb-rs"
version = "0.1.0"
edition = "2021"
publish = false

[dependencies]
anyhow = "1"
clap = "4"
csv = "1"
hex = "0.4"
indextree = "4"
pcap-file = "2"
uuid = "1"
