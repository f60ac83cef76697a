[package]
name = "storage-writer"
version = "0.1.0"
edition = "2021"
publish = false

[dependencies]
csv = "=1.4.0"
dir = "=0.1.2"
ethereum-types = { version = "=0.16.0", default-features = false, features = ["std"] }
