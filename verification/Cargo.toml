[package]
name = "xdrk"
version = "1.0.0"
edition = "2021"
publish = false

[dependencies]
anyhow = "1"
chrono = "0.4"
eyre = "0.6"
getset = "0.1"
lazy_static = "1"
serde = { version = "1", features = ["derive"] }
