[package]
name = "rcore_socket"
version = "0.1.0"
edition = "2021"
publish = false

[dependencies]
smoltcp = { version = "0.7", default-features = false, features = ["std", "ethernet", "proto-ipv4", "socket-raw", "socket-udp", "socket-tcp"] }
