[package]
name = "quicson"
version = "0.1.0"
edition = "2021"
publish = false

[dependencies]
quiche = "=0.3.0"
mio = "=0.6.23"
ring = "=0.16.20"
url = "1.7"
log = "=0.4.34"
env_logger = "=0.7.1"
curl = "=0.4.51"
