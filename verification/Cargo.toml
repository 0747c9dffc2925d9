[package]
name = "llama-harness-core"
version = "0.1.0"
edition = "2021"
publish = false

[dependencies]
async-trait = "0.1"
blake3 = "1"
clap = { version = "4", features = ["derive"] }
futures-core = "0.3"
futures-util = "0.3"
jsonschema = { version = "0.30", default-features = false }
serde = { version = "1", features = ["derive"] }
serde_json = { version = "1", features = ["float_roundtrip"] }
serde_yaml = "0.9"
thiserror = "2"
tokio = { version = "1", features = ["macros", "rt", "rt-multi-thread", "sync", "time"] }
tokio-util = "0.7"
uuid = { version = "1", features = ["v4"] }
