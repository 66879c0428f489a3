[package]
name = "forora"
version = "0.1.0"
edition = "2021"
publish = false

[dependencies]
bytesize = "1"
chrono = { version = "0.4", default-features = false, features = ["std", "now"] }
serde_json = "1"
