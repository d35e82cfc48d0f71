[package]
name = "zomboid_locator"
version = "0.1.0"
edition = "2021"
publish = false

[dependencies]
registry = "*"
reqwest = { version = "*", default-features = false, features = ["blocking"] }
tracing = "*"
tracing-subscriber = "*"
