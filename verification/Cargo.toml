[package]
name = "rsbackup"
version = "0.1.0"
edition = "2021"
publish = false

[dependencies]
chrono = { version = "0.4", default-features = false, features = ["clock", "std"] }
structopt = "0.3"
eframe = "0.16"
