[package]
name = "fuse_state"
version = "0.1.0"
edition = "2021"
publish = false

[dependencies]
dashmap = "6"
tokio-util = "0.7"
libc = "0.2"
log = "0.4"
tokio = { version = "1", features = ["sync"] }
futures = "0.3"
