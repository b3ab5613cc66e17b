[package]
name = "trust_dht"
version = "0.1.0"
edition = "2021"
publish = false

[dependencies]
halo2curves = "*"
rand = "0.8"
libp2p = { version = "=0.53.2", features = ["async-std", "dns", "kad", "mdns", "noise", "macros", "tcp", "yamux"] }
futures = "0.3"
async-std = { version = "1", features = ["attributes"] }
env_logger = "0.11"
