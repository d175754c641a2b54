[package]
name = "memory_plugins"
version = "0.1.0"
edition = "2021"
publish = false

[dependencies]
chrono = { version = "0.4", default-features = false, features = ["alloc", "std"] }
md-5 = "0.10"
regex = "1"
serde_json = "1"
sha1 = "0.10"
