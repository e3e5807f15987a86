[package]
name = "fim"
version = "0.4.6"
edition = "2021"
publish = false

[dependencies]
uuid = { version = "1", features = ["v4"] }
time = "0.3"
gethostname = "0.4"
notify = "4"
yaml-rust = "0.4"
log = "0.4"
simplelog = "0.12"
