[package]
name = "ads_discovery"
version = "0.1.0"
edition = "2021"
publish = false

[dependencies]
byteorder = "=1.5.0"
itertools = "=0.15.0"
interfaces = "=0.0.9"
log = "=0.4.34"
