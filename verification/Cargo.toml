[package]
name = "wait-for-them"
version = "0.5.0"
edition = "2021"
publish = false

[dependencies]
bytes = "1"
futures = "0.3"
http-body-util = "0.1"
hyper = { version = "1", features = ["client", "http1"] }
hyper-tls = "0.6"
hyper-util = { version = "0.1", features = ["client-legacy", "http1", "tokio"] }
indicatif = "0.17"
tokio = { version = "1", features = ["macros", "net", "process", "rt-multi-thread", "sync", "time"] }

[dev-dependencies]
regex = "1"
