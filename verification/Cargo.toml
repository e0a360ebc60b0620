[package]
name = "vonr_injector"
version = "0.1.0"
edition = "2021"
publish = false

[dependencies]
xmltree = "*"
xml-rs = "*"
clap = { version = "*", features = ["derive"] }
glob = "*"
log = "*"
pretty_env_logger = "*"
