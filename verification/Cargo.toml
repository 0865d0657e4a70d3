[package]
name = "gremlin_types"
version = "0.1.0"
edition = "2021"
publish = false

[dependencies]
chrono = "0.4"
uuid = "1"
serde = { version = "1", features = ["derive"] }
serde_json = "1"
thiserror = "1"
bigdecimal = "0.4"
num = "0.4"
