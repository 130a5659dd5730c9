[package]
name = "remote_agent"
version = "0.1.0"
edition = "2021"
publish = false

[dependencies]
execute = "=0.2.15"

[dev-dependencies]
bincode = "=1.3.3"
