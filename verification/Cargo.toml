[package]
name = "minichain"
version = "0.1.0"
edition = "2021"
publish = false

[dependencies]
chrono = { version = "0.4", default-features = false, features = ["clock"] }
rand = "0.9"
sha2 = "0.10"
thiserror = "1"
