[package]
name = "inko_core"
version = "0.1.0"
edition = "2021"
publish = false

[dependencies]
libc = "*"
rustix = { version = "=1.1.5", features = ["fs", "param", "process", "thread"] }
rustls = { version = "=0.23.45", default-features = false, features = ["ring", "std"] }
