[package]
name = "conex"
version = "0.1.0"
edition = "2021"
publish = false

[dependencies]
url = "*"
hyper = { version = "*", features = ["http1", "http2", "server", "client"] }
hyper-util = { version = "*", features = ["client-legacy", "http1", "http2", "server", "tokio"] }
hyper-rustls = { version = "*", default-features = false, features = ["http1", "http2", "webpki-roots", "ring", "tls12"] }
http = "*"
http-body-util = "*"
bytes = "*"
tokio = { version = "*", features = ["rt-multi-thread", "macros", "net", "time", "io-util"] }
base64 = "*"
