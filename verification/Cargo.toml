[package]
name = "remoting"
version = "0.1.0"
edition = "2021"
publish = false

[dependencies]
bytes = "1"
flate2 = "1"
chrono = "0.4"
tokio = { version = "1", features = ["sync", "net", "io-util", "rt", "rt-multi-thread", "macros", "time"] }
tokio-stream = "0.1"
futures = "0.3"
async-trait = "0.1"
thiserror = "1"
tracing = "0.1"

[dev-dependencies]
prost = { version = "0.11", default-features = false, features = ["std"] }
