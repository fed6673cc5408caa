[package]
name = "tokio_dlt"
version = "0.1.0"
edition = "2021"
publish = false

[dependencies]
bytes = "=1.12.1"
dlt-core = "=0.18.0"
futures = "=0.3.34"
thiserror = "=1.0.69"
tokio = { version = "=1.54.1", features = ["net", "io-util"] }
tokio-util = { version = "=0.7.20", features = ["codec"] }
