[package]
name = "uup"
version = "0.1.0"
edition = "2021"
publish = false

[dependencies]
anyhow = "*"
argh = "*"
async-trait = "*"
dns-lookup = "*"
futures = "*"
rand = "*"
tokio = { version = "1", features = ["rt", "macros", "signal", "time", "sync"] }
tokio-icmp-echo = "*"
