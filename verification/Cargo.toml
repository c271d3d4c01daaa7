[package]
name = "assembler"
version = "0.1.0"
edition = "2021"
publish = false

[dependencies]
env_logger = "=0.11.11"
log = "=0.4.34"

[dev-dependencies]
regex = "=1.13.1"
