[package]
name = "icps"
version = "0.1.0"
edition = "2021"

[dependencies]
chrono = "0.4"
rustyline = "13"
