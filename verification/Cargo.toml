[package]
name = "dnslogger"
version = "0.1.0"
edition = "2021"
publish = false

[dependencies]
hex = "0.4"
log = "0.4"
env_logger = "*"
pcap = "*"
pnet = "*"
serde = "1"
serde_derive = "1"
serde_json = "1"
structopt = "0.3"
clap = "2"
