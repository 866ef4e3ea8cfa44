[package]
name = "grasshopper"
version = "0.1.0"
edition = "2021"
publish = false

[dependencies]
eyre = "0.6"
mlua = { version = "0.8", features = ["lua54", "vendored", "serialize"] }
reqwest = { version = "0.11", default-features = false }
rust_decimal = { version = "1", features = ["maths"] }
serde = { version = "1", features = ["derive"] }
serde_json = { version = "1", features = ["raw_value"] }
tokio = { version = "1", features = ["rt-multi-thread", "macros", "sync", "time", "signal", "fs"] }
tracing = "0.1"
tracing-subscriber = "0.3"
