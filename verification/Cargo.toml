[package]
name = "diary"
version = "0.1.0"
edition = "2021"
publish = false

[dependencies]
chrono = "0.4"
log = "0.4"
postgres = "0.19"
simple_logger = "*"
tungstenite = "*"
