[package]
name = "authenticator"
version = "0.1.0"
edition = "2021"
publish = false

[dependencies]
libc = "0.2"
redis = { version = "0.27", default-features = false, features = ["aio", "tokio-comp"] }
rustls = { version = "0.23", default-features = false, features = ["std", "aws_lc_rs"] }
rustls-pemfile = "2"
tokio = { version = "1", features = ["rt-multi-thread", "macros", "net", "time", "sync", "io-util"] }
tokio-rustls = { version = "0.26", default-features = false, features = ["aws_lc_rs"] }
