[package]
name = "nightshade"
version = "0.1.0"
edition = "2021"
publish = false

[dependencies]
tokio = { version = "*", features = ["rt", "rt-multi-thread", "signal", "sync", "time"] }
rand = "*"
log = "*"
