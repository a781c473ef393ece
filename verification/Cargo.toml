[package]
name = "tokio_dns"
version = "0.1.0"
edition = "2021"
publish = false

[dependencies]
dns-parser = "*"
rand = "0.8"
resolv-conf = "*"
futures = { version = "0.3", features = ["thread-pool"] }
tokio = { version = "1", features = ["net", "rt"] }
lazy_static = "1"
