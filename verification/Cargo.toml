[package]
name = "empire"
version = "0.1.0"
edition = "2021"
publish = false

[dependencies]
conv = "0.3"
clap = "2"
futures = "0.1"
tokio = "0.1"
tokio-process = "0.2"
itertools = "0.7"
