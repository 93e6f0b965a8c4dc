[package]
name = "store"
version = "0.1.0"
edition = "2021"
publish = false

[dependencies]
ahash = "0.8"
deadpool-postgres = "0.12"
foundationdb = { version = "0.8", features = ["embedded-fdb-include", "fdb-7_1"] }
futures = "0.3"
rand = "0.8"
roaring = "0.10"
tokio = { version = "1", features = ["rt", "time"] }
tokio-postgres = "0.7"
