[package]
name = "js_evaluator"
version = "0.1.0"
edition = "2021"
publish = false

[dependencies]
boa_engine = "0.20"
uuid = { version = "1", features = ["v4"] }
serde = { version = "1", features = ["derive"] }
serde_json = "1"
clap = { version = "4", features = ["derive"] }
