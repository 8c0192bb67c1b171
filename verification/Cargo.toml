[package]
name = "cubesql"
version = "0.1.0"
edition = "2021"
publish = false

[dependencies]
async-trait = "=0.1.92"
datafusion = "=8.0.0"
serde_json = "=1.0.154"

[dev-dependencies]
regex = "=1.13.1"
tokio = { version = "=1.54.1", features = ["rt", "rt-multi-thread"] }
