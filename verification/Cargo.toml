[package]
name = "check_timed_logs_fast"
version = "0.1.0"
edition = "2021"
publish = false

[dependencies]
chrono = "0.4"
fancy-regex = "*"
glob = "*"
memmap = "0.5"
