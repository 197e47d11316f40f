[package]
name = "mixer_engine"
version = "0.1.0"
edition = "2021"
publish = false

[dependencies]
crossbeam-channel = "*"
crossterm = { version = "*", features = ["event-stream"] }
libpulse-binding = "*"
tokio = { version = "*", features = ["rt", "macros"] }
tokio-stream = "*"
