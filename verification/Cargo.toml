[package]
name = "rocksy"
version = "0.1.0"
edition = "2021"
publish = false

[dependencies]
clap = "2"
futures = "0.1"
hyper = "0.11"
regex = "1"
tokio-core = "0.1"
unicase = "2"
