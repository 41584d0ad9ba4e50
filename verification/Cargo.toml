[package]
name = "ruma_bot"
version = "0.1.0"
edition = "2021"
publish = false

[dependencies]
anymap = "=0.12.1"
failure = "=0.1.8"
futures = "=0.3.34"
proc-macro2 = "=1.0.107"
quote = "=1.0.47"
ruma-client = { version = "=0.20.0", features = ["client-api"] }
syn = { version = "=2.0.119", features = ["full", "extra-traits"] }
tokio = { version = "=1.54.1", features = ["rt"] }
url = "=2.5.8"
