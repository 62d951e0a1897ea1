[package]
name = "bigtable-rs"
version = "0.1.0"
edition = "2021"
publish = false

[dependencies]
log = "0.4"
thiserror = "1.0"
tonic = { version = "0.4", features = ["tls", "transport"] }
