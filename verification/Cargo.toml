[package]
name = "bruecke"
version = "0.1.0"
edition = "2021"
publish = false

[dependencies]
serde = { version = "1", features = ["derive"] }
serde_json = "1"
tokio = { version = "1", features = ["rt-multi-thread", "macros", "net", "io-util", "time", "sync", "process"] }
zbus = { version = "5", default-features = false, features = ["tokio"] }
futures-util = "0.3"
