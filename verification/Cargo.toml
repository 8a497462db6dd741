[package]
name = "bottomless_harness"
version = "0.1.0"
edition = "2021"
publish = false

[dependencies]
anyhow = "1"
aws-config = "1"
aws-sdk-s3 = "1"
futures-core = "0.3"
hyper = { version = "1", features = ["server", "http1"] }
hyper-util = { version = "0.1", features = ["tokio", "server", "server-auto", "server-graceful", "http1"] }
itertools = "=0.10.5"
libsql-client = { version = "=0.6.7", default-features = false, features = ["reqwest_backend"] }
s3s = "0.14"
s3s-fs = "0.14"
tokio = { version = "1", features = ["full"] }
tracing = "0.1"
tracing-subscriber = "0.3"
url = "=2.5.8"
uuid = { version = "=1.29.0", features = ["v7"] }
