[package]
name = "chksum_md5"
version = "0.1.0"
edition = "2021"
publish = false

[dependencies]
chksum-core = { version = "=0.1.0", features = ["async-runtime-tokio"] }
chksum-hash-md5 = "=0.0.1"
chksum-reader = { version = "=0.1.0", features = ["async-runtime-tokio"] }
chksum-writer = { version = "=0.1.0", features = ["async-runtime-tokio"] }
tokio = { version = "=1.53.2", features = ["io-util", "fs", "rt"] }
