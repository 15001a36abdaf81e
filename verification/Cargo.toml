[package]
name = "httpbis"
version = "0.1.0"
edition = "2021"
publish = false

[dependencies]
bytes = "1"
futures = "0.1"
native-tls = "0.2"
tls-api = "0.1"
tokio = "0.1"
tokio-core = "0.1"
tokio-io = "0.1"
tokio-timer = "0.1"
tokio-tls = "0.2"
tokio-tls-api = "0.1"
