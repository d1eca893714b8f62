[package]
name = "minecrevy"
version = "0.1.0"
edition = "2021"
publish = false

[dependencies]
bytes = "=1.12.1"
uuid = { version = "=1.29.0", features = ["v3", "serde"] }
tokio-util = { version = "=0.7.20", features = ["codec"] }
tokio = { version = "=1.54.1", features = ["rt-multi-thread", "net", "macros", "sync", "time", "io-util"] }
futures-util = { version = "=0.3.34", features = ["sink"] }
serde = { version = "=1.0.229", features = ["derive"] }
serde_json = "=1.0.154"
indexmap = "=2.14.2"
fastnbt = "=2.6.3"
byteorder = "=1.5.0"
thiserror = "=1.0.69"
