[package]
name = "tindercrypt"
version = "0.1.0"
edition = "2021"
publish = false

[dependencies]
protobuf = "=2.10.2"
ring = "=0.16.20"
