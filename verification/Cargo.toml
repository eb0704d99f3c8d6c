[package]
name = "chat_membership"
version = "0.1.0"
edition = "2021"
publish = false

[dependencies]
chrono = "=0.4.45"
ferroid = { version = "=2.0.0", features = ["std", "alloc"] }
