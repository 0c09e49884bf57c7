[package]
name = "arp_whisper"
version = "0.1.0"
edition = "2021"
publish = false

[dependencies]
pnet = "*"
rust-ini = "*"
log = "0.4"
simple_logger = "*"
