[package]
name = "sipguard"
version = "0.1.0"
edition = "2021"
publish = false

[dependencies]
pcap = "*"
libc = "*"
log = "*"
env_logger = "*"
