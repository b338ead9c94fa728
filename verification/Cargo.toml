[package]
name = "rustcraft"
version = "0.1.0"
edition = "2021"
publish = false

[dependencies]
byteorder = "=1.5.0"
log = "=0.4.35"
base64 = "=0.22.1"
parking_lot = "=0.12.5"
lazy_static = "=1.5.1"
rand = "0.8"
rand_pcg = "0.3"
