[package]
name = "conduit_proxy"
version = "0.1.0"
edition = "2021"
publish = false

[dependencies]
httparse = "1"
indexmap = "2"
rand = "0.8"
http = "0.2"
hyper = { version = "0.14", features = ["client", "server", "http1", "http2", "tcp", "runtime"] }
tokio = { version = "1", features = ["rt", "rt-multi-thread", "net", "io-util", "time", "sync"] }
libc = "0.2"
log = "0.4"
