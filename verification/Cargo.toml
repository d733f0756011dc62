[package]
name = "nv-overlay-slint"
version = "1.0.0"
edition = "2021"
publish = false

[dependencies]
clap = { version = "4.5", features = ["derive"] }
crossbeam-channel = "0.5"
env_logger = "0.11"
libloading = "0.8"
log = "0.4"
nvml-wrapper = "0.10"
parking_lot = "0.12"
rand = "0.8"
sysinfo = "0.32"
