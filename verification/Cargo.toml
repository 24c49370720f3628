[package]
name = "dataflowgrid"
version = "0.1.0"
edition = "2021"
publish = false

[dependencies]
tokio = { version = "1", features = ["sync", "rt", "rt-multi-thread", "macros", "net", "io-util", "time"] }
fastwebsockets = { version = "0.8", features = ["upgrade"] }
hyper = { version = "1", features = ["http1", "client", "server"] }
http-body-util = "0.1"
proc-macro2 = "1"
quote = "1"
