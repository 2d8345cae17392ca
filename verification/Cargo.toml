[package]
name = "fq_codel"
version = "0.1.0"
edition = "2021"
publish = false

[dependencies]
netlink-packet-utils = "*"
