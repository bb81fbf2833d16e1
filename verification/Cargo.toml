[package]
name = "payload_store"
version = "0.1.0"
edition = "2021"
publish = false

[dependencies]
hyper = "*"
http-body-util = "*"
rusqlite = { version = "*", features = ["bundled"] }
