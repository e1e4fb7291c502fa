[package]
name = "smartgpt"
version = "0.1.0"
edition = "2021"
publish = false

[dependencies]
mlua = { version = "0.8", features = ["lua54", "vendored"] }
serde = { version = "1", features = ["derive"] }
serde_json = "1"
serde_yaml = "0.9"
tokio = { version = "1", features = ["rt-multi-thread", "macros", "time"] }
colored = "2"
async-openai = "0.10"
reqwest = "0.11"
