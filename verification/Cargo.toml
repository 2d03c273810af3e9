[package]
name = "create_oi"
version = "0.1.0"
edition = "2021"
publish = false

[dependencies]
libm = "0.2"
midly = { version = "0.5", default-features = false, features = ["alloc", "std"] }
serialport = { version = "4", default-features = false }
tokio = { version = "1", features = ["time", "io-util", "rt", "macros"] }
tokio-serial = { version = "5", default-features = false }
smol = "2"
embassy-time = "*"
embedded-io-async = "*"
