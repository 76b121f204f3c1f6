[package]
name = "remux"
version = "0.1.0"
edition = "2021"
publish = false

[dependencies]
kanal = "*"
tokio = { version = "1", features = ["sync", "rt", "rt-multi-thread"] }
