[package]
name = "cratesfyi"
version = "0.1.0"
edition = "2021"
publish = false

[dependencies]
toml = "=1.1.7"
rustc-serialize = "=0.3.25"
slug = "=0.1.6"
time = "=0.1.45"
postgres = "=0.19.14"
hyper = { version = "=1.12.0", features = ["client", "http1"] }
hyper-util = { version = "=0.1.21", features = ["client-legacy", "http1", "tokio"] }
http-body-util = "=0.1.5"
tokio = { version = "=1.53.2", features = ["full"] }
bytes = "*"
