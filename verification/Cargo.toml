[package]
name = "dkr"
version = "0.1.0"
edition = "2021"
publish = false

[dependencies]
app_dirs = "1.2"
duct = "0.13"
failure = "0.1"
serde = { version = "1", features = ["derive"] }
serde_yaml = "0.8"
structopt = "0.3"
tempfile = "3"
yaml-rust = "0.4"
