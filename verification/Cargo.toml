[package]
name = "ftp_storage"
version = "0.1.0"
edition = "2021"
publish = false

[dependencies]
chrono = "0.4"
futures = "0.1"
path_abs = "0.5"
tokio = "0.1"
tokio-io = "0.1"

[dev-dependencies]
tempfile = "3"
