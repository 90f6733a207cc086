[package]
name = "fatcat"
version = "0.1.0"
edition = "2021"
publish = false

[dependencies]
uuid = "1"
chrono = { version = "0.4", default-features = false, features = ["std"] }
clap = "2"
iron = "0.6"
slog = "2"
slog-term = "2"
slog-async = "2"
cadence = "*"
