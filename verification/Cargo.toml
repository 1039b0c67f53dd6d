[package]
name = "cutoff_common"
version = "0.1.0"
edition = "2021"
publish = false

[dependencies]
url = "*"
glob = "*"
tracing = "*"
tracing-subscriber = "*"
