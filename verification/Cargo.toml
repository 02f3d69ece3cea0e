[package]
name = "dns_speed"
version = "0.1.0"
edition = "2021"
publish = false

[dependencies]
rand = "0.8"
trust-dns-client = { version = "*", default-features = false }
