[package]
name = "line_history"
version = "0.1.0"
edition = "2021"
publish = false

[dependencies]
rand = "=0.9.5"
chrono = "=0.4.45"
