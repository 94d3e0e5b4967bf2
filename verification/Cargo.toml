[package]
name = "netlink"
version = "0.1.0"
edition = "2021"
publish = false

[dependencies]
bincode = "1.3"
ipnet = "2"
libc = "0.2"
