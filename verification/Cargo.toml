[package]
name = "traffic_monitor"
version = "0.1.0"
edition = "2021"
publish = false

[dependencies]
chrono = "0.4"
etherparse = "0.13"
maxminddb = "0.23"
pcap = "1"
