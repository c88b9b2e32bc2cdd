[package]
name = "ohttp-client"
version = "0.1.0"
edition = "2021"
publish = false

[dependencies]
bhttp = { version = "*", features = ["bhttp", "http"] }
ohttp = { version = "*", default-features = false, features = ["client", "server", "rust-hpke"] }
hex = "0.4"
env_logger = { version = "0.10", default-features = false }
futures = "0.3"
reqwest = { version = "0.11", default-features = false, features = ["rustls-tls"] }
structopt = "0.3"
tokio = { version = "1", features = ["rt-multi-thread", "macros"] }
