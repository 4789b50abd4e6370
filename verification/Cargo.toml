[package]
name = "edr_test"
version = "0.1.0"
edition = "2021"
publish = false

[dependencies]
getopts = "*"
lazy_static = "*"
serde = { version = "*", features = ["derive"] }
serde_json = "*"
whoami = "*"
