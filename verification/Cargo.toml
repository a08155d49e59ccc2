[package]
name = "cardinal_search"
version = "0.1.0"
edition = "2021"
publish = false

[dependencies]
memchr = "=2.8.3"
regex = "=1.13.1"
slab = "=0.4.12"
serde = { version = "=1.0.229", features = ["derive"] }
base64 = "=0.22.1"
nix = { version = "*", features = ["inotify"] }
crossbeam-channel = "*"
