[package]
name = "tt"
version = "0.1.0"
edition = "2021"
publish = false

[dependencies]
chrono = "=0.4.45"
env_logger = "*"
log = "0.4"
once_cell = "1"
structopt = "0.3"
