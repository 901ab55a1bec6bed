[package]
name = "fan_controller"
version = "0.1.0"
edition = "2021"
publish = false

[dependencies]
anyhow = "1"
clap = { version = "3", features = ["derive"] }
ctrlc = "3"
log = "0.4"
rppal = "*"
