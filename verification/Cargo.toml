[package]
name = "pulse_async"
version = "0.1.0"
edition = "2021"
publish = false

[dependencies]
libpulse-binding = "2"
