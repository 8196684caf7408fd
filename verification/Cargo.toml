[package]
name = "httpui"
version = "0.1.0"
edition = "2021"
publish = false

[dependencies]
eframe = { version = "0.22", default-features = false, features = ["glow"] }
egui = "0.22"
env_logger = "0.10"
hyper = { version = "0.14", default-features = false }
log = "0.4"
reqwest = { version = "0.11", default-features = false, features = ["blocking"] }
