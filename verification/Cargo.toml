[package]
name = "dronecan"
version = "0.1.0"
edition = "2021"
publish = false

[dependencies]
crc = "=3.4.0"
embedded-can = "=0.4.1"
hash32 = "=0.3.1"
heapless = "=0.9.3"
