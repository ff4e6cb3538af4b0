[package]
name = "crate_spec"
version = "0.1.0"
edition = "2021"
publish = false

[dependencies]
bincode = "=2.0.1"
clap = { version = "=4.6.7", features = ["derive"] }
openssl = "=0.10.81"
reqwest = { version = "=0.12.28", features = ["blocking", "json"] }
serde = { version = "=1.0.229", features = ["derive"] }
toml = "=0.8.23"
