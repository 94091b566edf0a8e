[package]
name = "patina-rpc"
version = "0.1.0"
edition = "2021"
publish = false

[dependencies]
async-trait = "0.1"
bincode = { version = "2", features = ["serde"] }
bytes = "1"
futures = "0.3"
proc-macro2 = "1"
quote = "1"
serde = { version = "1", features = ["derive"] }
syn = { version = "2", features = ["full"] }
thiserror = "2"
tokio = { version = "1", features = ["net", "rt-multi-thread", "sync", "time", "macros", "io-util"] }
tokio-util = { version = "0.7", features = ["codec"] }
tracing = "0.1"
