[package]
name = "bean-rs"
version = "0.1.0"
edition = "2021"
publish = false

[dependencies]
chrono = "0.4"
clap = { version = "4", features = ["derive"] }
env_logger = "*"
log = "0.4"
pest = "2"
pest_derive = "2"
pyo3 = { version = "*", features = ["abi3-py311"] }
rust_decimal = "1"
