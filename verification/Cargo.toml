[package]
name = "chip_again"
version = "0.1.0"
edition = "2021"
publish = false

[dependencies]
rand = "0.8"
crossterm = "0.25"
itertools = "0.10"
structopt = "0.3"
env_logger = "0.9"
thiserror = "1"
